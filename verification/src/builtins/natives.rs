//! The built-in functions that work on the heap alone, and what each of
//! them does to it.

use crate::builtins::Builtins;
use crate::decimal::{decimal, integer_text};
use crate::error::RuntimeError;
use crate::float::{
    bits_are_zero, bits_compare, bits_equal, bits_from_integer, converted, float_eq, float_order,
    is_nan, is_zero, truncated, Arithmetic, Comparison, FloatUnit,
};
use crate::heap::{only_changed, prefix, Heap};
use crate::ptr::{Ptr, PtrMut};
use crate::value::{type_of, NativeFunction, Object, Type, Value};
use vstd::prelude::*;
use vstd::string::StringExecFns;

verus! {

/// The argument at position `at` of a call; a call with too few arguments
/// does not match the function's arity.
pub open spec fn argument(args: Seq<Value>, at: int) -> Result<Value, RuntimeError> {
    if 0 <= at < args.len() {
        Ok(args[at])
    } else {
        Err(RuntimeError::ArityMismatch)
    }
}

/// The argument at position `at` of a call.
pub fn arg(args: &Vec<Value>, at: usize) -> (value: Result<Value, RuntimeError>)
    ensures
        value == argument(args@, at as int),
{
    if at < args.len() {
        Ok(args[at])
    } else {
        Err(RuntimeError::ArityMismatch)
    }
}

/// The text that `value` is: only a string has text, and its handle must be
/// live.
pub open spec fn text_of(strings: Seq<String>, value: Value) -> Result<Seq<char>, RuntimeError> {
    match value {
        Value::String(text) => if text.live(strings) {
            Ok(strings[text@]@)
        } else {
            Err(RuntimeError::StackCorruption)
        },
        _ => Err(RuntimeError::TypeMismatch),
    }
}

/// The text that `value` is.
pub fn text<'a>(strings: &'a Vec<String>, value: Value) -> (text: Result<&'a String, RuntimeError>)
    ensures
        match text {
            Ok(text) => text_of(strings@, value) == Ok::<Seq<char>, RuntimeError>(text@),
            Err(e) => text_of(strings@, value) == Err::<Seq<char>, RuntimeError>(e),
        },
{
    match value {
        Value::String(text) => match text.get(strings) {
            Some(text) => Ok(text),
            None => Err(RuntimeError::StackCorruption),
        },
        _ => Err(RuntimeError::TypeMismatch),
    }
}

/// The items of the list that `value` is: only a list has items, and its
/// handle must be live.
pub open spec fn items_of(lists: Seq<Vec<Value>>, value: Value) -> Result<
    Seq<Value>,
    RuntimeError,
> {
    match value {
        Value::List(list) => if list.live(lists) {
            Ok(lists[list@]@)
        } else {
            Err(RuntimeError::StackCorruption)
        },
        _ => Err(RuntimeError::TypeMismatch),
    }
}

/// The items of the list that `value` is.
pub fn items<'a>(lists: &'a Vec<Vec<Value>>, value: Value) -> (items: Result<
    &'a Vec<Value>,
    RuntimeError,
>)
    ensures
        match items {
            Ok(items) => items_of(lists@, value) == Ok::<Seq<Value>, RuntimeError>(items@),
            Err(e) => items_of(lists@, value) == Err::<Seq<Value>, RuntimeError>(e),
        },
{
    match value {
        Value::List(list) => match list.get(lists) {
            Some(items) => Ok(items),
            None => Err(RuntimeError::StackCorruption),
        },
        _ => Err(RuntimeError::TypeMismatch),
    }
}

/// Allocates `text` and returns it as a value.
pub fn new_string(strings: &mut Vec<String>, text: String) -> (value: Value)
    ensures
        shows(old(strings)@, final(strings)@, value, text@),
{
    Value::String(Ptr::new(strings, text))
}

/// `value` is a string allocated on top of `before`, with the text `text`;
/// `after` is `before` with that string added.
pub open spec fn shows(
    before: Seq<String>,
    after: Seq<String>,
    value: Value,
    text: Seq<char>,
) -> bool {
    &&& value == Value::String(Ptr::nth(before.len()))
    &&& after.len() == before.len() + 1
    &&& prefix(before, after)
    &&& after[before.len() as int]@ == text
}

/// The text that the two operands of a concatenation make, the left one
/// first.
pub open spec fn concatenation(strings: Seq<String>, args: Seq<Value>) -> Result<
    Seq<char>,
    RuntimeError,
> {
    match argument(args, 0) {
        Err(e) => Err(e),
        Ok(lhs) => match text_of(strings, lhs) {
            Err(e) => Err(e),
            Ok(lhs) => match argument(args, 1) {
                Err(e) => Err(e),
                Ok(rhs) => match text_of(strings, rhs) {
                    Err(e) => Err(e),
                    Ok(rhs) => Ok(lhs + rhs),
                },
            },
        },
    }
}

/// Concatenates two strings into a new one; the operands stay as they are.
pub fn string_add(strings: &mut Vec<String>, args: &Vec<Value>) -> (sum: Result<
    Value,
    RuntimeError,
>)
    ensures
        match concatenation(old(strings)@, args@) {
            Ok(text) => sum is Ok && shows(old(strings)@, final(strings)@, sum->Ok_0, text),
            Err(e) => sum == Err::<Value, RuntimeError>(e),
        },
{
    let lhs = text(strings, arg(args, 0)?)?;
    let mut sum = lhs.clone();
    let rhs = text(strings, arg(args, 1)?)?;
    sum.append(rhs.as_str());
    Ok(new_string(strings, sum))
}

/// The items that the two operands of a list concatenation make, the left
/// one's first.
pub open spec fn joined(lists: Seq<Vec<Value>>, args: Seq<Value>) -> Result<
    Seq<Value>,
    RuntimeError,
> {
    match argument(args, 0) {
        Err(e) => Err(e),
        Ok(lhs) => match items_of(lists, lhs) {
            Err(e) => Err(e),
            Ok(lhs) => match argument(args, 1) {
                Err(e) => Err(e),
                Ok(rhs) => match items_of(lists, rhs) {
                    Err(e) => Err(e),
                    Ok(rhs) => Ok(lhs + rhs),
                },
            },
        },
    }
}

/// Concatenates two lists into a new one. Every list that was in the heap
/// stays as it is, the operands among them.
pub fn list_add(lists: &mut Vec<Vec<Value>>, args: &Vec<Value>) -> (sum: Result<
    Value,
    RuntimeError,
>)
    ensures
        match joined(old(lists)@, args@) {
            Ok(items) => {
                &&& sum == Ok::<Value, RuntimeError>(
                    Value::List(PtrMut::nth(old(lists)@.len())),
                )
                &&& final(lists)@.len() == old(lists)@.len() + 1
                &&& prefix(old(lists)@, final(lists)@)
                &&& final(lists)@[old(lists)@.len() as int]@ == items
            },
            Err(e) => sum == Err::<Value, RuntimeError>(e),
        },
{
    let lhs = items(lists, arg(args, 0)?)?;
    let rhs = items(lists, arg(args, 1)?)?;
    let mut new_list: Vec<Value> = Vec::new();
    let mut i: usize = 0;
    while i < lhs.len()
        invariant
            i <= lhs@.len(),
            new_list@ == lhs@.subrange(0, i as int),
        decreases lhs.len() - i,
    {
        new_list.push(lhs[i]);
        assert(new_list@ =~= lhs@.subrange(0, i + 1));
        i += 1;
    }
    let mut j: usize = 0;
    while j < rhs.len()
        invariant
            j <= rhs@.len(),
            new_list@ == lhs@ + rhs@.subrange(0, j as int),
        decreases rhs.len() - j,
    {
        new_list.push(rhs[j]);
        assert(new_list@ =~= lhs@ + rhs@.subrange(0, j + 1));
        j += 1;
    }
    assert(new_list@ =~= lhs@ + rhs@);
    Ok(Value::List(PtrMut::new(lists, new_list)))
}

/// The list that a method call on a list receives: the first argument,
/// which must be a live list.
pub open spec fn receiver(lists: Seq<Vec<Value>>, args: Seq<Value>) -> Result<
    PtrMut<Vec<Value>>,
    RuntimeError,
> {
    match argument(args, 0) {
        Err(e) => Err(e),
        Ok(Value::List(list)) => if list.live(lists) {
            Ok(list)
        } else {
            Err(RuntimeError::StackCorruption)
        },
        Ok(_) => Err(RuntimeError::TypeMismatch),
    }
}

/// The list that a method call on a list receives.
fn receiving_list(lists: &Vec<Vec<Value>>, args: &Vec<Value>) -> (list: Result<
    PtrMut<Vec<Value>>,
    RuntimeError,
>)
    ensures
        list == receiver(lists@, args@),
{
    let list = arg(args, 0)?.list()?;
    if list.id() < lists.len() {
        Ok(list)
    } else {
        Err(RuntimeError::StackCorruption)
    }
}

/// Appends the second argument to the list that the first argument is.
pub fn list_push(lists: &mut Vec<Vec<Value>>, args: &Vec<Value>) -> (done: Result<
    Value,
    RuntimeError,
>)
    ensures
        match receiver(old(lists)@, args@) {
            Ok(list) => match argument(args@, 1) {
                Ok(item) => {
                    &&& done == Ok::<Value, RuntimeError>(Value::Null)
                    &&& only_changed(old(lists)@, final(lists)@, list@)
                    &&& final(lists)@[list@]@ == old(lists)@[list@]@.push(item)
                },
                Err(e) => done == Err::<Value, RuntimeError>(e),
            },
            Err(e) => done == Err::<Value, RuntimeError>(e),
        },
{
    let list = receiving_list(lists, args)?;
    let item = arg(args, 1)?;
    list.value_mut(lists).push(item);
    Ok(Value::Null)
}

/// The integer that subscripts a list: an integer as it is, a binary64
/// number as it truncates, and nothing else.
pub open spec fn subscript(args: Seq<Value>) -> Result<i64, RuntimeError> {
    match argument(args, 1) {
        Err(e) => Err(e),
        Ok(Value::Integer(index)) => Ok(index),
        Ok(Value::Float(bits)) => Ok(truncated(bits) as i64),
        Ok(_) => Err(RuntimeError::TypeMismatch),
    }
}

/// The item at `index` of `items`; an index outside the list is an error.
pub open spec fn item_at(items: Seq<Value>, index: i64) -> Result<Value, RuntimeError> {
    if 0 <= index < items.len() {
        Ok(items[index as int])
    } else {
        Err(RuntimeError::IndexOutOfBounds)
    }
}

/// What subscripting the list `args[0]` by `args[1]` gives.
pub open spec fn subscripted(lists: Seq<Vec<Value>>, args: Seq<Value>) -> Result<
    Value,
    RuntimeError,
> {
    match receiver(lists, args) {
        Err(e) => Err(e),
        Ok(list) => match subscript(args) {
            Err(e) => Err(e),
            Ok(index) => item_at(lists[list@]@, index),
        },
    }
}

/// The integer that the subscript of a list access stands for.
fn subscript_index(args: &Vec<Value>) -> (index: Result<i64, RuntimeError>)
    ensures
        index == subscript(args@),
{
    arg(args, 1)?.as_int()
}

/// Reads the item of the list `args[0]` at the subscript `args[1]`.
pub fn list_get_subscript(lists: &Vec<Vec<Value>>, args: &Vec<Value>) -> (item: Result<
    Value,
    RuntimeError,
>)
    ensures
        item == subscripted(lists@, args@),
{
    let list = receiving_list(lists, args)?;
    let index = subscript_index(args)?;
    let items = list.value(lists);
    if 0 <= index && (index as u64) < (items.len() as u64) {
        Ok(items[index as usize])
    } else {
        Err(RuntimeError::IndexOutOfBounds)
    }
}

/// Whether storing into the list `args[0]` at the subscript `args[1]` is in
/// order, and if so into which list, at which position, and what.
pub open spec fn store_position(lists: Seq<Vec<Value>>, args: Seq<Value>) -> Result<
    (PtrMut<Vec<Value>>, int, Value),
    RuntimeError,
> {
    match receiver(lists, args) {
        Err(e) => Err(e),
        Ok(list) => match subscript(args) {
            Err(e) => Err(e),
            Ok(index) => if 0 <= index < lists[list@]@.len() {
                match argument(args, 2) {
                    Err(e) => Err(e),
                    Ok(item) => Ok((list, index as int, item)),
                }
            } else {
                Err(RuntimeError::IndexOutOfBounds)
            },
        },
    }
}

/// The state of the lists and the result after storing as
/// [`store_position`] says.
pub open spec fn stored(
    before: Seq<Vec<Value>>,
    after: Seq<Vec<Value>>,
    args: Seq<Value>,
    done: Result<Value, RuntimeError>,
) -> bool {
    match store_position(before, args) {
        Ok((list, index, item)) => {
            &&& done == Ok::<Value, RuntimeError>(Value::Null)
            &&& only_changed(before, after, list@)
            &&& after[list@]@ == before[list@]@.update(index, item)
        },
        Err(e) => done == Err::<Value, RuntimeError>(e),
    }
}

/// Stores `args[2]` into the list `args[0]` at the subscript `args[1]`.
pub fn list_set_subscript(lists: &mut Vec<Vec<Value>>, args: &Vec<Value>) -> (done: Result<
    Value,
    RuntimeError,
>)
    ensures
        stored(old(lists)@, final(lists)@, args@, done),
{
    let list = receiving_list(lists, args)?;
    let index = subscript_index(args)?;
    if 0 <= index && (index as u64) < (list.value(lists).len() as u64) {
        let item = arg(args, 2)?;
        list.value_mut(lists).set(index as usize, item);
        Ok(Value::Null)
    } else {
        Err(RuntimeError::IndexOutOfBounds)
    }
}

/// The quotient of two integers, rounded towards zero.
pub open spec fn quotient(lhs: int, rhs: int) -> int {
    if lhs >= 0 && rhs > 0 {
        lhs / rhs
    } else if lhs < 0 && rhs < 0 {
        (-lhs) / (-rhs)
    } else if lhs < 0 {
        -((-lhs) / rhs)
    } else {
        -(lhs / (-rhs))
    }
}

/// What `lhs op rhs` gives on integers: the exact result where it is a
/// 64-bit signed integer; a division by zero and a result outside that
/// range are errors.
pub open spec fn integer_result(op: Arithmetic, lhs: i64, rhs: i64) -> Result<
    Value,
    RuntimeError,
> {
    let exact = match op {
        Arithmetic::Add => lhs + rhs,
        Arithmetic::Subtract => lhs - rhs,
        Arithmetic::Multiply => lhs * rhs,
        Arithmetic::Divide => quotient(lhs as int, rhs as int),
    };
    if op == Arithmetic::Divide && rhs == 0 {
        Err(RuntimeError::DivisionByZero)
    } else if exact < i64::MIN || exact > i64::MAX {
        Err(RuntimeError::Overflow)
    } else {
        Ok(Value::Integer(exact as i64))
    }
}

/// Computes `lhs op rhs` on integers.
pub fn integer_operation(op: Arithmetic, lhs: i64, rhs: i64) -> (result: Result<
    Value,
    RuntimeError,
>)
    ensures
        result == integer_result(op, lhs, rhs),
{
    let exact = match op {
        Arithmetic::Add => lhs.checked_add(rhs),
        Arithmetic::Subtract => lhs.checked_sub(rhs),
        Arithmetic::Multiply => lhs.checked_mul(rhs),
        Arithmetic::Divide => {
            if rhs == 0 {
                return Err(RuntimeError::DivisionByZero);
            }
            lhs.checked_div(rhs)
        },
    };
    match exact {
        Some(value) => Ok(Value::Integer(value)),
        None => Err(RuntimeError::Overflow),
    }
}

/// Whether `lhs op rhs` holds of two integers.
pub open spec fn integer_order(op: Comparison, lhs: i64, rhs: i64) -> bool {
    match op {
        Comparison::LessThan => lhs < rhs,
        Comparison::GreaterThan => lhs > rhs,
        Comparison::LessThanOrEqual => lhs <= rhs,
        Comparison::GreaterThanOrEqual => lhs >= rhs,
    }
}

/// Decides whether `lhs op rhs` holds of two integers.
pub fn integer_comparison(op: Comparison, lhs: i64, rhs: i64) -> (holds: bool)
    ensures
        holds == integer_order(op, lhs, rhs),
{
    match op {
        Comparison::LessThan => lhs < rhs,
        Comparison::GreaterThan => lhs > rhs,
        Comparison::LessThanOrEqual => lhs <= rhs,
        Comparison::GreaterThanOrEqual => lhs >= rhs,
    }
}

/// The operands of an integer operator: the left one must be an integer;
/// the right one is an integer as it is, a binary64 number as it
/// truncates, and nothing else.
pub open spec fn integer_operands(args: Seq<Value>) -> Result<(i64, i64), RuntimeError> {
    match argument(args, 0) {
        Err(e) => Err(e),
        Ok(Value::Integer(lhs)) => match subscript(args) {
            Err(e) => Err(e),
            Ok(rhs) => Ok((lhs, rhs)),
        },
        Ok(_) => Err(RuntimeError::TypeMismatch),
    }
}

/// What an integer arithmetic operator gives on `args`.
pub open spec fn integer_arithmetic_result(op: Arithmetic, args: Seq<Value>) -> Result<
    Value,
    RuntimeError,
> {
    match integer_operands(args) {
        Err(e) => Err(e),
        Ok((lhs, rhs)) => integer_result(op, lhs, rhs),
    }
}

/// What an integer ordering operator gives on `args`.
pub open spec fn integer_comparison_result(op: Comparison, args: Seq<Value>) -> Result<
    Value,
    RuntimeError,
> {
    match integer_operands(args) {
        Err(e) => Err(e),
        Ok((lhs, rhs)) => Ok(Value::Bool(integer_order(op, lhs, rhs))),
    }
}

/// The operands of an integer operator.
fn integer_pair(args: &Vec<Value>) -> (pair: Result<(i64, i64), RuntimeError>)
    ensures
        pair == integer_operands(args@),
{
    let lhs = arg(args, 0)?.integer()?;
    let rhs = subscript_index(args)?;
    Ok((lhs, rhs))
}

/// Applies an integer arithmetic operator to `args`.
pub fn integer_arithmetic(op: Arithmetic, args: &Vec<Value>) -> (result: Result<
    Value,
    RuntimeError,
>)
    ensures
        result == integer_arithmetic_result(op, args@),
{
    let (lhs, rhs) = integer_pair(args)?;
    integer_operation(op, lhs, rhs)
}

/// Applies an integer ordering operator to `args`.
pub fn integer_compare(op: Comparison, args: &Vec<Value>) -> (result: Result<Value, RuntimeError>)
    ensures
        result == integer_comparison_result(op, args@),
{
    let (lhs, rhs) = integer_pair(args)?;
    Ok(Value::Bool(integer_comparison(op, lhs, rhs)))
}

/// The operands of a binary64 operator, as bit patterns: the left one must
/// be a binary64 number; the right one is a binary64 number as it is, an
/// integer as the nearest binary64 number, and nothing else.
pub open spec fn float_operands(args: Seq<Value>) -> Result<(u64, u64), RuntimeError> {
    match argument(args, 0) {
        Err(e) => Err(e),
        Ok(Value::Float(lhs)) => match argument(args, 1) {
            Err(e) => Err(e),
            Ok(Value::Float(rhs)) => Ok((lhs, rhs)),
            Ok(Value::Integer(rhs)) => Ok((lhs, converted(rhs) as u64)),
            Ok(_) => Err(RuntimeError::TypeMismatch),
        },
        Ok(_) => Err(RuntimeError::TypeMismatch),
    }
}

/// The operands of a binary64 operator, as bit patterns.
fn float_pair(args: &Vec<Value>) -> (pair: Result<(u64, u64), RuntimeError>)
    ensures
        pair == float_operands(args@),
{
    let lhs = arg(args, 0)?.float()?;
    let rhs = arg(args, 1)?.as_float()?;
    Ok((lhs, rhs))
}

/// Applies a binary64 arithmetic operator to `args`. Which number comes
/// out of operands that are in order is for the floating-point unit to
/// say.
pub fn float_arithmetic<U: FloatUnit>(unit: &U, op: Arithmetic, args: &Vec<Value>) -> (result:
    Result<Value, RuntimeError>)
    ensures
        match float_operands(args@) {
            Ok(_) => result matches Ok(Value::Float(_)),
            Err(e) => result == Err::<Value, RuntimeError>(e),
        },
{
    let (lhs, rhs) = float_pair(args)?;
    Ok(Value::Float(unit.arithmetic(op, lhs, rhs)))
}

/// What a binary64 ordering operator gives on `args`.
pub open spec fn float_comparison_result(op: Comparison, args: Seq<Value>) -> Result<
    Value,
    RuntimeError,
> {
    match float_operands(args) {
        Err(e) => Err(e),
        Ok((lhs, rhs)) => Ok(Value::Bool(float_order(op, lhs, rhs))),
    }
}

/// Applies a binary64 ordering operator to `args`.
pub fn float_compare(op: Comparison, args: &Vec<Value>) -> (result: Result<Value, RuntimeError>)
    ensures
        result == float_comparison_result(op, args@),
{
    let (lhs, rhs) = float_pair(args)?;
    Ok(Value::Bool(bits_compare(op, lhs, rhs)))
}

/// Equality of values as the root type defines it. Booleans and numbers
/// compare across kinds: a number counts as true when it is not zero, and
/// an integer compares with a binary64 number as the nearest binary64
/// number. Text compares by content; types, objects and built-in functions
/// compare by identity; null equals null; everything else differs.
pub open spec fn equal_values(strings: Seq<String>, lhs: Value, rhs: Value) -> bool {
    match (lhs, rhs) {
        (Value::Bool(l), Value::Bool(r)) => l == r,
        (Value::Bool(l), Value::Integer(r)) => l == (r != 0),
        (Value::Bool(l), Value::Float(r)) => l == !is_zero(r),
        (Value::Integer(l), Value::Integer(r)) => l == r,
        (Value::Integer(l), Value::Float(r)) => float_eq(converted(l) as u64, r),
        (Value::Integer(l), Value::Bool(r)) => (l != 0) == r,
        (Value::Float(l), Value::Float(r)) => float_eq(l, r),
        (Value::Float(l), Value::Integer(r)) => float_eq(l, converted(r) as u64),
        (Value::Float(l), Value::Bool(r)) => !is_zero(l) == r,
        (Value::Type(l), Value::Type(r)) => l@ == r@,
        (Value::String(l), Value::String(r)) => l@ == r@ || (l.live(strings) && r.live(strings)
            && strings[l@]@ == strings[r@]@),
        (Value::Object(l), Value::Object(r)) => l@ == r@,
        (Value::Null, Value::Null) => true,
        (Value::Native(l, _), Value::Native(r, _)) => l == r,
        _ => false,
    }
}

/// Whether two built-in functions are the same one.
fn same_native(l: &NativeFunction, r: &NativeFunction) -> (same: bool)
    ensures
        same == (*l == *r),
{
    *l == *r
}

/// Decides the equality of two values.
pub fn equals(strings: &Vec<String>, lhs: &Value, rhs: &Value) -> (equal: bool)
    ensures
        equal == equal_values(strings@, *lhs, *rhs),
{
    match (lhs, rhs) {
        (Value::Bool(l), Value::Bool(r)) => *l == *r,
        (Value::Bool(l), Value::Integer(r)) => *l == (*r != 0),
        (Value::Bool(l), Value::Float(r)) => *l == !bits_are_zero(*r),
        (Value::Integer(l), Value::Integer(r)) => *l == *r,
        (Value::Integer(l), Value::Float(r)) => bits_equal(bits_from_integer(*l), *r),
        (Value::Integer(l), Value::Bool(r)) => (*l != 0) == *r,
        (Value::Float(l), Value::Float(r)) => bits_equal(*l, *r),
        (Value::Float(l), Value::Integer(r)) => bits_equal(*l, bits_from_integer(*r)),
        (Value::Float(l), Value::Bool(r)) => !bits_are_zero(*l) == *r,
        (Value::Type(l), Value::Type(r)) => l.id() == r.id(),
        (Value::String(l), Value::String(r)) => {
            if l.id() == r.id() {
                true
            } else {
                match (l.get(strings), r.get(strings)) {
                    (Some(l), Some(r)) => *l == *r,
                    _ => false,
                }
            }
        },
        (Value::Object(l), Value::Object(r)) => l.id() == r.id(),
        (Value::Null, Value::Null) => true,
        (Value::Native(l, _), Value::Native(r, _)) => same_native(l, r),
        _ => false,
    }
}

/// A boolean, an integer, a string and a binary64 number that is no NaN
/// each equal themselves: `equals` gives true on them and `not_equals`
/// false.
pub proof fn lemma_equals_reflexive(strings: Seq<String>, value: Value)
    requires
        value is Bool || value is Integer || value is String || (value matches Value::Float(bits)
            && !is_nan(bits)),
    ensures
        equal_values(strings, value, value),
{
}

/// A property that is a function or a built-in function is handed out bound
/// to the value it was looked up on.
pub open spec fn binds(value: Value) -> bool {
    value is Function || value is Native
}

/// The property `name` as the chain of types from `ty` upwards defines it:
/// the first type that has it decides. A chain that ends without it misses
/// the property; a chain that leaves the heap or does not lead to older
/// types is corrupt.
pub open spec fn find_property(types: Seq<Type>, ty: Ptr<Type>, name: Seq<char>) -> Result<
    Value,
    RuntimeError,
>
    decreases ty@,
{
    if !ty.live(types) {
        Err(RuntimeError::StackCorruption)
    } else if types[ty@].properties@.contains_key(name) {
        Ok(types[ty@].properties@[name])
    } else {
        match types[ty@].base {
            Some(base) => if 0 <= base@ < ty@ {
                find_property(types, base, name)
            } else {
                Err(RuntimeError::StackCorruption)
            },
            None => Err(RuntimeError::PropertyMissing),
        }
    }
}

/// The property `name` of `target` before binding: an object's own property
/// first, then what the chain of its type defines.
pub open spec fn property(heap: &Heap, builtins: Builtins, target: Value, name: Seq<char>) -> Result<
    Value,
    RuntimeError,
> {
    match own_property(heap.objects@, target, name) {
        Some(found) => Ok(found),
        None => match type_of(target, builtins, heap.objects@, heap.values@) {
            None => Err(RuntimeError::StackCorruption),
            Some(ty) => find_property(heap.types@, ty, name),
        },
    }
}

/// The property `name` that `target` itself holds: only an object holds
/// properties of its own.
pub open spec fn own_property(objects: Seq<Object>, target: Value, name: Seq<char>) -> Option<
    Value,
> {
    match target {
        Value::Object(object) => if object.live(objects) && objects[object@].own_properties().contains_key(
            name,
        ) {
            Some(objects[object@].own_properties()[name])
        } else {
            None
        },
        _ => None,
    }
}

/// Looks `name` up along the chain of types from `ty` upwards.
fn lookup_property(types: &Vec<Type>, ty: Ptr<Type>, name: &String) -> (value: Result<
    Value,
    RuntimeError,
>)
    ensures
        value == find_property(types@, ty, name@),
    decreases ty@,
{
    let entry = match ty.get(types) {
        Some(entry) => entry,
        None => {
            return Err(RuntimeError::StackCorruption);
        },
    };
    if let Some(value) = entry.properties.get(name) {
        return Ok(value);
    }
    match entry.base {
        Some(base) => {
            if base.id() < ty.id() {
                lookup_property(types, base, name)
            } else {
                Err(RuntimeError::StackCorruption)
            }
        },
        None => Err(RuntimeError::PropertyMissing),
    }
}

/// What reading the property named by the text `prop` off `target` does to
/// the heap, its frames left aside, and gives. A function or built-in
/// function comes bound to `target`: the pair is stored on top of the bound
/// values. Any other property comes as it is, and the heap stays as it was.
pub open spec fn reads_property(
    before: &Heap,
    after: &Heap,
    builtins: Builtins,
    target: Value,
    prop: Ptr<String>,
    result: Result<Value, RuntimeError>,
) -> bool {
    match before.text(prop) {
        None => result == Err::<Value, RuntimeError>(RuntimeError::StackCorruption),
        Some(name) => match property(before, builtins, target, name) {
            Err(e) => result == Err::<Value, RuntimeError>(e),
            Ok(found) => if binds(found) {
                &&& result == Ok::<Value, RuntimeError>(
                    Value::Bound(
                        Ptr::nth(before.values@.len()),
                        Ptr::nth(before.values@.len() + 1),
                    ),
                )
                &&& after.values@ == before.values@.push(found).push(target)
                &&& after.same_but_values(before)
            } else {
                &&& result == Ok::<Value, RuntimeError>(found)
                &&& after.same_but_frames(before)
            },
        },
    }
}

/// Reads the property named by the text `prop` off `target`.
pub fn get_property(heap: &mut Heap, builtins: &Builtins, target: Value, prop: Ptr<String>) -> (result:
    Result<Value, RuntimeError>)
    ensures
        reads_property(old(heap), final(heap), *builtins, target, prop, result),
        final(heap).frames == old(heap).frames,
        final(heap).codes == old(heap).codes,
{
    let name = match prop.get(&heap.strings) {
        Some(name) => name,
        None => {
            return Err(RuntimeError::StackCorruption);
        },
    };
    let mut own: Option<Value> = None;
    if let Value::Object(object) = target {
        if let Some(object) = object.get(&heap.objects) {
            own = object.get_property(name);
        }
    }
    let found = match own {
        Some(found) => found,
        None => {
            let ty = match target.ty(builtins, &heap.objects, &heap.values) {
                Some(ty) => ty,
                None => {
                    return Err(RuntimeError::StackCorruption);
                },
            };
            lookup_property(&heap.types, ty, name)?
        },
    };
    match found {
        Value::Function(_) | Value::Native(_, _) => {
            let callable = Ptr::new(&mut heap.values, found);
            let receiver = Ptr::new(&mut heap.values, target);
            Ok(Value::Bound(callable, receiver))
        },
        _ => Ok(found),
    }
}

/// What setting the property named by the text `prop` on `target` does to
/// the heap, its frames left aside: only an object takes properties, and
/// the property becomes its own.
pub open spec fn writes_property(
    before: &Heap,
    after: &Heap,
    target: Value,
    prop: Ptr<String>,
    value: Value,
    done: Result<(), RuntimeError>,
) -> bool {
    match target {
        Value::Object(object) => match before.text(prop) {
            Some(name) if object.live(before.objects@) => {
                &&& done is Ok
                &&& only_changed(before.objects@, after.objects@, object@)
                &&& after.objects@[object@].own_properties()
                    == before.objects@[object@].own_properties().insert(name, value)
                &&& after.objects@[object@].type_ptr() == before.objects@[object@].type_ptr()
                &&& after.same_but_objects(before)
            },
            _ => done == Err::<(), RuntimeError>(RuntimeError::StackCorruption),
        },
        _ => done == Err::<(), RuntimeError>(RuntimeError::ProtocolMissing),
    }
}

/// Sets the property named by the text `prop` on `target`.
pub fn set_property(heap: &mut Heap, target: Value, prop: Ptr<String>, value: Value) -> (done:
    Result<(), RuntimeError>)
    ensures
        writes_property(old(heap), final(heap), target, prop, value, done),
        final(heap).frames == old(heap).frames,
        final(heap).codes == old(heap).codes,
{
    if let Value::Object(object) = target {
        let name = match prop.get(&heap.strings) {
            Some(name) => name.clone(),
            None => {
                return Err(RuntimeError::StackCorruption);
            },
        };
        if object.id() >= heap.objects.len() {
            return Err(RuntimeError::StackCorruption);
        }
        object.value_mut(&mut heap.objects).set_property(name, value);
        Ok(())
    } else {
        Err(RuntimeError::ProtocolMissing)
    }
}

/// The text by which values of a type without a notation of their own are
/// displayed.
pub open spec fn tag_text(display: NativeFunction) -> Seq<char> {
    match display {
        NativeFunction::FunctionDisplay => "<function object>"@,
        NativeFunction::FrameDisplay => "<frame object>"@,
        NativeFunction::NativeDisplay => "<native function>"@,
        NativeFunction::CodeDisplay => "<code object>"@,
        NativeFunction::NullDisplay => "null"@,
        NativeFunction::TypeDisplay => "<type object>"@,
        _ => "<object>"@,
    }
}

/// The text by which values of a type without a notation of their own are
/// displayed.
pub fn tag(display: NativeFunction) -> (text: &'static str)
    ensures
        text@ == tag_text(display),
{
    match display {
        NativeFunction::FunctionDisplay => "<function object>",
        NativeFunction::FrameDisplay => "<frame object>",
        NativeFunction::NativeDisplay => "<native function>",
        NativeFunction::CodeDisplay => "<code object>",
        NativeFunction::NullDisplay => "null",
        NativeFunction::TypeDisplay => "<type object>",
        _ => "<object>",
    }
}

/// The text of a boolean.
pub open spec fn bool_text(value: bool) -> Seq<char> {
    if value {
        "true"@
    } else {
        "false"@
    }
}

/// What a display function that shows `text` does to the heap, its
/// frames left aside, and gives: a new string with that text.
pub open spec fn displayed(
    before: &Heap,
    after: &Heap,
    text: Result<Seq<char>, RuntimeError>,
    result: Result<Value, RuntimeError>,
) -> bool {
    match text {
        Err(e) => result == Err::<Value, RuntimeError>(e),
        Ok(text) => result is Ok && shows(before.strings@, after.strings@, result->Ok_0, text)
            && after.same_but_strings(before),
    }
}

/// How the first argument of a call shows as an integer.
pub open spec fn integer_shown(args: Seq<Value>) -> Result<Seq<char>, RuntimeError> {
    match argument(args, 0) {
        Err(e) => Err(e),
        Ok(Value::Integer(i)) => Ok(decimal(i as int)),
        Ok(_) => Err(RuntimeError::TypeMismatch),
    }
}

/// How the first argument of a call shows as a boolean.
pub open spec fn bool_shown(args: Seq<Value>) -> Result<Seq<char>, RuntimeError> {
    match argument(args, 0) {
        Err(e) => Err(e),
        Ok(Value::Bool(b)) => Ok(bool_text(b)),
        Ok(_) => Err(RuntimeError::TypeMismatch),
    }
}

/// The two operands of the equality operators.
pub open spec fn operands(args: Seq<Value>) -> Result<(Value, Value), RuntimeError> {
    match argument(args, 0) {
        Err(e) => Err(e),
        Ok(lhs) => match argument(args, 1) {
            Err(e) => Err(e),
            Ok(rhs) => Ok((lhs, rhs)),
        },
    }
}

/// What an equality operator gives on `args`: `equals` when `negated` is
/// false, `not_equals` when it is true.
pub open spec fn compared(strings: Seq<String>, args: Seq<Value>, negated: bool) -> Result<
    Value,
    RuntimeError,
> {
    match operands(args) {
        Err(e) => Err(e),
        Ok((lhs, rhs)) => Ok(Value::Bool(equal_values(strings, lhs, rhs) != negated)),
    }
}

/// The operands of a property access: the target, and the name, which must
/// be a string.
pub open spec fn property_operands(args: Seq<Value>) -> Result<(Value, Ptr<String>), RuntimeError> {
    match argument(args, 0) {
        Err(e) => Err(e),
        Ok(target) => match argument(args, 1) {
            Err(e) => Err(e),
            Ok(Value::String(prop)) => Ok((target, prop)),
            Ok(_) => Err(RuntimeError::TypeMismatch),
        },
    }
}

/// What a built-in function that does not call back into the interpreter
/// does to the heap, its frames left aside, and gives.
pub open spec fn effect(
    before: &Heap,
    after: &Heap,
    builtins: Builtins,
    native: NativeFunction,
    args: Seq<Value>,
    result: Result<Value, RuntimeError>,
) -> bool {
    match native {
        NativeFunction::Print | NativeFunction::ListDisplay => true,
        NativeFunction::StringDisplay => result == argument(args, 0) && after.same_but_frames(
            before,
        ),
        NativeFunction::StringAdd => match concatenation(before.strings@, args) {
            Ok(text) => result is Ok && shows(
                before.strings@,
                after.strings@,
                result->Ok_0,
                text,
            ) && after.same_but_strings(before),
            Err(e) => result == Err::<Value, RuntimeError>(e),
        },
        NativeFunction::ListGetSubscript => result == subscripted(before.lists@, args)
            && after.same_but_frames(before),
        NativeFunction::ListSetSubscript => stored(before.lists@, after.lists@, args, result)
            && after.same_but_lists(before),
        NativeFunction::ListAdd => match joined(before.lists@, args) {
            Ok(items) => {
                &&& result == Ok::<Value, RuntimeError>(
                    Value::List(PtrMut::nth(before.lists@.len())),
                )
                &&& after.lists@.len() == before.lists@.len() + 1
                &&& prefix(before.lists@, after.lists@)
                &&& after.lists@[before.lists@.len() as int]@ == items
                &&& after.same_but_lists(before)
            },
            Err(e) => result == Err::<Value, RuntimeError>(e),
        },
        NativeFunction::ListPush => match receiver(before.lists@, args) {
            Ok(list) => match argument(args, 1) {
                Ok(item) => {
                    &&& result == Ok::<Value, RuntimeError>(Value::Null)
                    &&& only_changed(before.lists@, after.lists@, list@)
                    &&& after.lists@[list@]@ == before.lists@[list@]@.push(item)
                    &&& after.same_but_lists(before)
                },
                Err(e) => result == Err::<Value, RuntimeError>(e),
            },
            Err(e) => result == Err::<Value, RuntimeError>(e),
        },
        NativeFunction::IntegerDisplay => displayed(before, after, integer_shown(args), result),
        NativeFunction::IntegerArithmetic(op) => result == integer_arithmetic_result(op, args)
            && after.same_but_frames(before),
        NativeFunction::IntegerComparison(op) => result == integer_comparison_result(op, args)
            && after.same_but_frames(before),
        NativeFunction::FloatDisplay => match argument(args, 0) {
            Err(e) => result == Err::<Value, RuntimeError>(e),
            Ok(Value::Float(_)) => {
                &&& result == Ok::<Value, RuntimeError>(
                    Value::String(Ptr::nth(before.strings@.len())),
                )
                &&& after.strings@.len() == before.strings@.len() + 1
                &&& prefix(before.strings@, after.strings@)
                &&& after.same_but_strings(before)
            },
            Ok(_) => result == Err::<Value, RuntimeError>(RuntimeError::TypeMismatch),
        },
        NativeFunction::FloatArithmetic(_) => match float_operands(args) {
            Ok(_) => result matches Ok(Value::Float(_)) && after.same_but_frames(before),
            Err(e) => result == Err::<Value, RuntimeError>(e),
        },
        NativeFunction::FloatComparison(op) => result == float_comparison_result(op, args)
            && after.same_but_frames(before),
        NativeFunction::BoolDisplay => displayed(before, after, bool_shown(args), result),
        NativeFunction::FunctionDisplay
        | NativeFunction::FrameDisplay
        | NativeFunction::NativeDisplay
        | NativeFunction::CodeDisplay
        | NativeFunction::NullDisplay
        | NativeFunction::ObjectDisplay
        | NativeFunction::TypeDisplay => displayed(before, after, Ok(tag_text(native)), result),
        NativeFunction::Equals => result == compared(before.strings@, args, false)
            && after.same_but_frames(before),
        NativeFunction::NotEquals => result == compared(before.strings@, args, true)
            && after.same_but_frames(before),
        NativeFunction::GetProperty => match property_operands(args) {
            Err(e) => result == Err::<Value, RuntimeError>(e),
            Ok((target, prop)) => reads_property(before, after, builtins, target, prop, result),
        },
        NativeFunction::SetProperty => match property_operands(args) {
            Err(e) => result == Err::<Value, RuntimeError>(e),
            Ok((target, prop)) => match argument(args, 2) {
                Err(e) => result == Err::<Value, RuntimeError>(e),
                Ok(value) => {
                    &&& writes_property(
                        before,
                        after,
                        target,
                        prop,
                        value,
                        match result {
                            Ok(_) => Ok(()),
                            Err(e) => Err(e),
                        },
                    )
                    &&& result is Ok ==> result == Ok::<Value, RuntimeError>(Value::Null)
                },
            },
        },
    }
}

/// Runs a built-in function that does not call back into the interpreter.
pub fn run_native<U: FloatUnit>(
    heap: &mut Heap,
    builtins: &Builtins,
    unit: &U,
    native: NativeFunction,
    args: &Vec<Value>,
) -> (result: Result<Value, RuntimeError>)
    requires
        !native.reenters(),
    ensures
        effect(old(heap), final(heap), *builtins, native, args@, result),
        final(heap).frames == old(heap).frames,
        final(heap).codes == old(heap).codes,
{
    match native {
        NativeFunction::Print | NativeFunction::ListDisplay => Ok(Value::Null),
        NativeFunction::StringDisplay => arg(args, 0),
        NativeFunction::StringAdd => string_add(&mut heap.strings, args),
        NativeFunction::ListGetSubscript => list_get_subscript(&heap.lists, args),
        NativeFunction::ListSetSubscript => list_set_subscript(&mut heap.lists, args),
        NativeFunction::ListAdd => list_add(&mut heap.lists, args),
        NativeFunction::ListPush => list_push(&mut heap.lists, args),
        NativeFunction::IntegerDisplay => {
            let text = integer_text(arg(args, 0)?.integer()?);
            Ok(new_string(&mut heap.strings, text))
        },
        NativeFunction::IntegerArithmetic(op) => integer_arithmetic(op, args),
        NativeFunction::IntegerComparison(op) => integer_compare(op, args),
        NativeFunction::FloatDisplay => {
            let text = unit.display(arg(args, 0)?.float()?);
            Ok(new_string(&mut heap.strings, text))
        },
        NativeFunction::FloatArithmetic(op) => float_arithmetic(unit, op, args),
        NativeFunction::FloatComparison(op) => float_compare(op, args),
        NativeFunction::BoolDisplay => {
            let text = if arg(args, 0)?.bool()? {
                "true"
            } else {
                "false"
            };
            Ok(new_string(&mut heap.strings, String::from_str(text)))
        },
        NativeFunction::FunctionDisplay
        | NativeFunction::FrameDisplay
        | NativeFunction::NativeDisplay
        | NativeFunction::CodeDisplay
        | NativeFunction::NullDisplay
        | NativeFunction::ObjectDisplay
        | NativeFunction::TypeDisplay => Ok(
            new_string(&mut heap.strings, String::from_str(tag(native))),
        ),
        NativeFunction::Equals => {
            let lhs = arg(args, 0)?;
            let rhs = arg(args, 1)?;
            Ok(Value::Bool(equals(&heap.strings, &lhs, &rhs)))
        },
        NativeFunction::NotEquals => {
            let lhs = arg(args, 0)?;
            let rhs = arg(args, 1)?;
            Ok(Value::Bool(!equals(&heap.strings, &lhs, &rhs)))
        },
        NativeFunction::GetProperty => {
            let target = arg(args, 0)?;
            let prop = arg(args, 1)?.string()?;
            get_property(heap, builtins, target, prop)
        },
        NativeFunction::SetProperty => {
            let target = arg(args, 0)?;
            let prop = arg(args, 1)?.string()?;
            let value = arg(args, 2)?;
            match set_property(heap, target, prop, value) {
                Ok(_) => Ok(Value::Null),
                Err(e) => Err(e),
            }
        },
    }
}

} // verus!
