use san_script::builtins::natives::{
    equals, get_property, integer_operation, list_add, run_native, set_property,
};
use san_script::builtins::Builtins;
use san_script::decimal::integer_text;
use san_script::error::RuntimeError;
use san_script::float::{
    bits_are_nan, bits_are_zero, bits_compare, bits_equal, bits_from_integer, bits_truncate,
    Arithmetic, Comparison, FloatUnit,
};
use san_script::frame::{Code, Frame, Function};
use san_script::heap::Heap;
use san_script::instruction::Instruction;
use san_script::interpreter::{
    get_native_prop, lookup_slot, resolve_callable, resolve_name, Called, Interpreter, Outcome,
    Status,
};
use san_script::ptr::{Ptr, PtrMut};
use san_script::table::Table;
use san_script::value::{ArgPattern, NativeFunction, Object, Slot, Type, Value};

struct Unit;

impl FloatUnit for Unit {
    fn arithmetic(&self, op: Arithmetic, lhs: u64, rhs: u64) -> u64 {
        let (l, r) = (f64::from_bits(lhs), f64::from_bits(rhs));
        match op {
            Arithmetic::Add => l + r,
            Arithmetic::Subtract => l - r,
            Arithmetic::Multiply => l * r,
            Arithmetic::Divide => l / r,
        }
        .to_bits()
    }

    fn display(&self, bits: u64) -> String {
        format!("{}", f64::from_bits(bits))
    }
}

fn string(heap: &mut Heap, text: &str) -> Ptr<String> {
    Ptr::new(&mut heap.strings, text.to_string())
}

fn machine(instructions: Vec<Instruction>, constants: Vec<Value>, names: &[&str]) -> Interpreter<Unit> {
    let mut heap = Heap::new();
    let builtins = Builtins::new(&mut heap);
    let names = names.iter().map(|name| string(&mut heap, name)).collect();
    let code = Ptr::new(&mut heap.codes, Code::new(instructions, constants, names, 0));
    let frame = PtrMut::new(&mut heap.frames, Frame::new(code, None, None));
    Interpreter::new(heap, frame, builtins, Unit)
}

#[test]
fn handles_name_what_was_stored() {
    let mut store: Vec<String> = Vec::new();
    let first = Ptr::new(&mut store, "one".to_string());
    let second = Ptr::new(&mut store, "two".to_string());
    assert_eq!(first.id(), 0);
    assert_eq!(second.id(), 1);
    assert_eq!(first.value(&store), "one");
    assert_eq!(second.value(&store), "two");
    assert_eq!(first.get(&store), Some(&"one".to_string()));
    assert_eq!(first.clone(), first);
    assert_ne!(first, second);
    let empty: Vec<String> = Vec::new();
    assert_eq!(second.get(&empty), None);
}

#[test]
fn mutable_handles_give_access_in_place() {
    let mut store: Vec<Vec<i64>> = Vec::new();
    let first = PtrMut::new(&mut store, vec![1]);
    let second = PtrMut::new(&mut store, vec![2]);
    first.value_mut(&mut store).push(10);
    assert_eq!(first.value(&store), &vec![1, 10]);
    assert_eq!(second.value(&store), &vec![2]);
    assert_eq!(first.id(), 0);
    assert_eq!(second.id(), 1);
    assert_eq!(second.get(&store), Some(&vec![2]));
    let copy = second;
    assert_eq!(copy, second);
    assert_ne!(first, second);
}

#[test]
fn table_keeps_the_last_binding_of_a_name() {
    let mut table = Table::new();
    let x = "x".to_string();
    let y = "y".to_string();
    assert_eq!(table.get(&x), None);
    assert!(!table.contains_key(&x));
    table.insert(x.clone(), Value::Integer(1));
    table.insert(y.clone(), Value::Integer(2));
    table.insert(x.clone(), Value::Integer(3));
    assert_eq!(table.get(&x), Some(Value::Integer(3)));
    assert_eq!(table.get(&y), Some(Value::Integer(2)));
    assert!(table.contains_key(&y));
    assert!(!table.contains_key(&"z".to_string()));
    *table.get_mut(&y).unwrap() = Value::Integer(4);
    assert_eq!(table.get(&y), Some(Value::Integer(4)));
    assert_eq!(table.get(&x), Some(Value::Integer(3)));
    assert!(table.get_mut(&"z".to_string()).is_none());
}

#[test]
fn integers_in_decimal_notation() {
    assert_eq!(integer_text(0), "0");
    assert_eq!(integer_text(7), "7");
    assert_eq!(integer_text(10), "10");
    assert_eq!(integer_text(-1), "-1");
    assert_eq!(integer_text(1234567890), "1234567890");
    assert_eq!(integer_text(i64::MAX), "9223372036854775807");
    assert_eq!(integer_text(i64::MIN), "-9223372036854775808");
}

#[test]
fn bit_patterns_compare_as_numbers_do() {
    let cases = [
        0.0,
        -0.0,
        1.0,
        -1.0,
        1.5,
        -1.5,
        1e300,
        -1e300,
        5e-324,
        -5e-324,
        f64::MAX,
        f64::MIN,
        f64::INFINITY,
        f64::NEG_INFINITY,
        f64::NAN,
        -f64::NAN,
        f64::MIN_POSITIVE,
    ];
    for a in cases {
        assert_eq!(bits_are_nan(a.to_bits()), a.is_nan());
        assert_eq!(bits_are_zero(a.to_bits()), a == 0.0);
        for b in cases {
            let (x, y) = (a.to_bits(), b.to_bits());
            assert_eq!(bits_equal(x, y), a == b);
            assert_eq!(bits_compare(Comparison::LessThan, x, y), a < b);
            assert_eq!(bits_compare(Comparison::GreaterThan, x, y), a > b);
            assert_eq!(bits_compare(Comparison::LessThanOrEqual, x, y), a <= b);
            assert_eq!(bits_compare(Comparison::GreaterThanOrEqual, x, y), a >= b);
        }
    }
    assert!(bits_are_nan(0xfff8_0000_0000_0001));
    assert!(!bits_are_nan(0xfff0_0000_0000_0000));
}

#[test]
fn arity_patterns() {
    assert!(ArgPattern::Any.admits(0));
    assert!(ArgPattern::Any.admits(9));
    assert!(ArgPattern::Exact(2).admits(2));
    assert!(!ArgPattern::Exact(2).admits(1));
    assert!(!ArgPattern::Exact(2).admits(3));
    assert!(ArgPattern::Min(2).admits(2));
    assert!(ArgPattern::Min(2).admits(3));
    assert!(!ArgPattern::Min(2).admits(1));
    assert!(ArgPattern::Max(2).admits(0));
    assert!(ArgPattern::Max(2).admits(2));
    assert!(!ArgPattern::Max(2).admits(3));
    assert!(ArgPattern::Range(1, 2).admits(1));
    assert!(ArgPattern::Range(1, 2).admits(2));
    assert!(!ArgPattern::Range(1, 2).admits(0));
    assert!(!ArgPattern::Range(1, 2).admits(3));
}

#[test]
fn values_convert_only_from_their_own_kind() {
    let mut heap = Heap::new();
    let text = string(&mut heap, "t");
    let list = PtrMut::new(&mut heap.lists, vec![]);
    assert_eq!(Value::Integer(0).as_bool(), Ok(false));
    assert_eq!(Value::Integer(-3).as_bool(), Ok(true));
    assert_eq!(Value::Float(0.0f64.to_bits()).as_bool(), Ok(false));
    assert_eq!(Value::Float((-0.0f64).to_bits()).as_bool(), Ok(false));
    assert_eq!(Value::Float(f64::NAN.to_bits()).as_bool(), Ok(true));
    assert_eq!(Value::Bool(true).as_bool(), Ok(true));
    assert_eq!(Value::Null.as_bool(), Err(RuntimeError::TypeMismatch));
    assert_eq!(Value::String(text).as_bool(), Err(RuntimeError::TypeMismatch));
    assert_eq!(Value::List(list).list(), Ok(list));
    assert_eq!(Value::Null.list(), Err(RuntimeError::TypeMismatch));
    assert_eq!(Value::String(text).string(), Ok(text));
    assert_eq!(Value::Integer(1).string(), Err(RuntimeError::TypeMismatch));
    assert_eq!(Value::Bool(false).bool(), Ok(false));
    assert_eq!(Value::Integer(1).bool(), Err(RuntimeError::TypeMismatch));
    assert_eq!(Value::Integer(5).integer(), Ok(5));
    assert_eq!(Value::Float(5.0f64.to_bits()).integer(), Err(RuntimeError::TypeMismatch));
    assert_eq!(Value::Float(7).float(), Ok(7));
    assert_eq!(Value::Integer(7).float(), Err(RuntimeError::TypeMismatch));
    assert_eq!(Value::Integer(2).as_float(), Ok(2.0f64.to_bits()));
    assert_eq!(Value::Float(9).as_float(), Ok(9));
    assert_eq!(Value::Bool(true).as_float(), Err(RuntimeError::TypeMismatch));
    assert_eq!(Value::Integer(2).as_int(), Ok(2));
    assert_eq!(Value::Float(2.9f64.to_bits()).as_int(), Ok(2));
    assert_eq!(Value::Float((-2.9f64).to_bits()).as_int(), Ok(-2));
    assert_eq!(Value::Float(1e30f64.to_bits()).as_int(), Ok(i64::MAX));
    assert_eq!(Value::Float(f64::NAN.to_bits()).as_int(), Ok(0));
    assert_eq!(Value::Integer(i64::MAX).as_float(), Ok(9223372036854775808.0f64.to_bits()));
    assert_eq!(Value::Null.as_int(), Err(RuntimeError::TypeMismatch));
}

#[test]
fn frames_keep_a_stack_a_scope_and_a_counter() {
    let mut heap = Heap::new();
    let name = string(&mut heap, "a");
    let other = string(&mut heap, "b");
    let code = Ptr::new(
        &mut heap.codes,
        Code::new(
            vec![Instruction::Pop, Instruction::Return],
            vec![Value::Integer(42)],
            vec![name, other],
            1,
        ),
    );
    let caller = PtrMut::new(&mut heap.frames, Frame::new(code, None, None));
    let mut frame = Frame::new(code, Some(caller), None);
    assert_eq!(frame.program_counter(), 0);
    assert_eq!(frame.depth(), 0);
    assert_eq!(frame.code(), code);
    assert_eq!(frame.calling_frame(), Some(caller));
    assert_eq!(frame.outer_frame(), None);
    assert_eq!(frame.instruction(&heap.codes), Some(Instruction::Pop));
    assert_eq!(frame.constant(&heap.codes, 0), Some(Value::Integer(42)));
    assert_eq!(frame.constant(&heap.codes, 1), None);
    assert_eq!(frame.name(&heap.codes, 1), Some(other));
    assert_eq!(frame.name(&heap.codes, 2), None);
    assert_eq!(frame.parameters(&heap.codes), Some(vec![name]));
    assert_eq!(frame.pop(), Err(RuntimeError::StackCorruption));
    frame.push(Value::Integer(1));
    frame.push(Value::Integer(2));
    frame.push(Value::Integer(3));
    assert_eq!(frame.pop(), Ok(Value::Integer(3)));
    assert_eq!(frame.pop_pair(), Ok((Value::Integer(2), Value::Integer(1))));
    frame.push(Value::Integer(4));
    assert_eq!(frame.pop_pair(), Err(RuntimeError::StackCorruption));
    assert_eq!(frame.depth(), 0);
    frame.extend(&vec![Value::Integer(5), Value::Integer(6)]);
    assert_eq!(frame.pop(), Ok(Value::Integer(6)));
    frame.jump_absolute(1);
    assert_eq!(frame.instruction(&heap.codes), Some(Instruction::Return));
    frame.jump_relative(1);
    assert_eq!(frame.program_counter(), 2);
    assert_eq!(frame.instruction(&heap.codes), None);
    frame.jump_relative(-2);
    assert_eq!(frame.program_counter(), 0);
    let x = "x".to_string();
    assert!(!frame.contains_variable(&x));
    assert_eq!(frame.variable(&x), None);
    frame.declare(x.clone(), Value::Bool(true));
    frame.declare(x.clone(), Value::Bool(false));
    assert!(frame.contains_variable(&x));
    assert_eq!(frame.variable(&x), Some(Value::Bool(false)));
    assert_eq!(frame.scope().get(&x), Some(Value::Bool(false)));
    *frame.variable_mut(&x).unwrap() = Value::Integer(8);
    assert_eq!(frame.variable(&x), Some(Value::Integer(8)));
    assert!(frame.variable_mut(&"y".to_string()).is_none());
}

#[test]
fn a_function_frame_returns_to_the_caller_and_sees_the_captured_frame() {
    let mut heap = Heap::new();
    let code = Ptr::new(&mut heap.codes, Code::new(vec![], vec![], vec![], 0));
    let outer = PtrMut::new(&mut heap.frames, Frame::new(code, None, None));
    let caller = PtrMut::new(&mut heap.frames, Frame::new(code, None, None));
    let frame = Function::new(code, outer).as_frame(caller);
    assert_eq!(frame.calling_frame(), Some(caller));
    assert_eq!(frame.outer_frame(), Some(outer));
    assert_eq!(frame.code(), code);
    assert_eq!(frame.program_counter(), 0);
    assert_eq!(frame.depth(), 0);
}

#[test]
fn parameters_need_names_at_the_head_of_the_pool() {
    let mut heap = Heap::new();
    let code = Ptr::new(&mut heap.codes, Code::new(vec![], vec![], vec![], 2));
    let frame = Frame::new(code, None, None);
    assert_eq!(frame.parameters(&heap.codes), None);
    let empty: Vec<Code> = Vec::new();
    assert_eq!(frame.parameters(&empty), None);
    assert_eq!(frame.instruction(&empty), None);
}

#[test]
fn names_resolve_along_the_enclosing_chain_only() {
    let mut heap = Heap::new();
    let code = Ptr::new(&mut heap.codes, Code::new(vec![], vec![], vec![], 0));
    let x = "x".to_string();
    let y = "y".to_string();
    let z = "z".to_string();
    let mut global = Frame::new(code, None, None);
    global.declare(x.clone(), Value::Integer(1));
    let global = PtrMut::new(&mut heap.frames, global);
    let mut caller = Frame::new(code, None, None);
    caller.declare(y.clone(), Value::Integer(2));
    let caller = PtrMut::new(&mut heap.frames, caller);
    let mut inner = Frame::new(code, Some(caller), Some(global));
    inner.declare(z.clone(), Value::Integer(3));
    let inner = PtrMut::new(&mut heap.frames, inner);
    assert_eq!(resolve_name(&heap.frames, inner, &z), Ok(inner));
    assert_eq!(resolve_name(&heap.frames, inner, &x), Ok(global));
    assert_eq!(resolve_name(&heap.frames, inner, &y), Err(RuntimeError::NameUnresolved));
    assert_eq!(resolve_name(&heap.frames, caller, &y), Ok(caller));
    let empty: Vec<Frame> = Vec::new();
    assert_eq!(resolve_name(&empty, inner, &z), Err(RuntimeError::StackCorruption));
}

#[test]
fn built_in_types_derive_from_object() {
    let mut heap = Heap::new();
    let builtins = Builtins::new(&mut heap);
    let types = builtins.types;
    let expected = [
        (types.object, "object"),
        (types.string, "str"),
        (types.list, "list"),
        (types.float, "float"),
        (types.bool, "bool"),
        (types.integer, "int"),
        (types.frame, "Frame"),
        (types.native, "NativeFunction"),
        (types.function, "function"),
        (types.code, "Code"),
        (types.null, "null"),
        (types.ty, "object"),
    ];
    for (ty, name) in expected {
        let ty = ty.value(&heap.types);
        assert_eq!(ty.name.value(&heap.strings), name);
        assert!(ty.display.is_some());
    }
    assert_eq!(types.object.value(&heap.types).base, None);
    assert_eq!(types.integer.value(&heap.types).base, Some(types.object));
    assert_eq!(types.ty.value(&heap.types).base, Some(types.object));
    assert_eq!(
        types.list.value(&heap.types).properties.get(&"push".to_string()),
        Some(Value::Native(NativeFunction::ListPush, ArgPattern::Exact(2)))
    );
    assert_eq!(builtins.print, Value::Native(NativeFunction::Print, ArgPattern::Any));
    assert_eq!(builtins.resolve(&"print".to_string()), Some(builtins.print));
    assert_eq!(builtins.resolve(&"prin".to_string()), None);
    assert_eq!(builtins.resolve(&"printer".to_string()), None);
}

#[test]
fn slots_are_found_along_the_chain_of_types() {
    let mut heap = Heap::new();
    let builtins = Builtins::new(&mut heap);
    let types = builtins.types;
    assert_eq!(
        lookup_slot(&heap.types, types.integer, Slot::Add),
        Ok(Value::Native(NativeFunction::IntegerArithmetic(Arithmetic::Add), ArgPattern::Exact(2)))
    );
    assert_eq!(
        lookup_slot(&heap.types, types.integer, Slot::Equals),
        Ok(Value::Native(NativeFunction::Equals, ArgPattern::Exact(2)))
    );
    assert_eq!(lookup_slot(&heap.types, types.bool, Slot::Add), Err(RuntimeError::ProtocolMissing));
    assert_eq!(
        get_native_prop(&heap, &builtins, Value::Integer(1), Slot::GetProperty),
        Ok(Value::Native(NativeFunction::GetProperty, ArgPattern::Exact(2)))
    );
    assert_eq!(
        get_native_prop(&heap, &builtins, Value::Null, Slot::Display),
        Ok(Value::Native(NativeFunction::NullDisplay, ArgPattern::Exact(1)))
    );
    assert_eq!(
        get_native_prop(&heap, &builtins, Value::Null, Slot::Call),
        Err(RuntimeError::ProtocolMissing)
    );
    assert_eq!(Value::Bool(true).ty(&builtins, &heap.objects, &heap.values), Some(types.bool));
    assert_eq!(Value::Type(types.bool).ty(&builtins, &heap.objects, &heap.values), Some(types.ty));
    let callable = Ptr::new(&mut heap.values, builtins.print);
    let receiver = Ptr::new(&mut heap.values, Value::Null);
    assert_eq!(
        Value::Bound(callable, receiver).ty(&builtins, &heap.objects, &heap.values),
        Some(types.native)
    );
}

#[test]
fn a_type_starts_bare() {
    let mut heap = Heap::new();
    let name = string(&mut heap, "point");
    let root = Ptr::new(&mut heap.types, Type::root(name));
    let ty = Type::new(name, root);
    assert_eq!(ty.name, name);
    assert_eq!(ty.base, Some(root));
    assert_eq!(root.value(&heap.types).base, None);
    let slots = [
        Slot::Call,
        Slot::Add,
        Slot::Subtract,
        Slot::Multiply,
        Slot::Divide,
        Slot::Equals,
        Slot::NotEquals,
        Slot::LessThan,
        Slot::GreaterThan,
        Slot::LessThanOrEqual,
        Slot::GreaterThanOrEqual,
        Slot::Display,
        Slot::GetProperty,
        Slot::SetProperty,
        Slot::GetSubscript,
        Slot::SetSubscript,
    ];
    for slot in slots {
        assert_eq!(ty.slot(slot), None);
    }
    assert!(!ty.properties.contains_key(&"x".to_string()));
}

#[test]
fn object_properties_come_before_those_of_the_type() {
    let mut heap = Heap::new();
    let builtins = Builtins::new(&mut heap);
    let name = string(&mut heap, "point");
    let mut ty = Type::new(name, builtins.types.object);
    ty.properties.insert("x".to_string(), Value::Integer(1));
    ty.properties.insert("y".to_string(), Value::Integer(2));
    ty.properties.insert("show".to_string(), builtins.print);
    let ty = Ptr::new(&mut heap.types, ty);
    let mut own = Table::new();
    own.insert("x".to_string(), Value::Integer(10));
    let mut object = Object::new(ty, own);
    assert_eq!(object.ty(), ty);
    assert_eq!(object.get_property(&"x".to_string()), Some(Value::Integer(10)));
    assert_eq!(object.get_property(&"y".to_string()), None);
    object.set_property("z".to_string(), Value::Integer(30));
    assert_eq!(object.get_property(&"z".to_string()), Some(Value::Integer(30)));
    let object = Value::Object(PtrMut::new(&mut heap.objects, object));
    let x = string(&mut heap, "x");
    let y = string(&mut heap, "y");
    let w = string(&mut heap, "w");
    let show = string(&mut heap, "show");
    assert_eq!(get_property(&mut heap, &builtins, object, x), Ok(Value::Integer(10)));
    assert_eq!(get_property(&mut heap, &builtins, object, y), Ok(Value::Integer(2)));
    assert_eq!(
        get_property(&mut heap, &builtins, object, w),
        Err(RuntimeError::PropertyMissing)
    );
    let before = heap.values.len();
    match get_property(&mut heap, &builtins, object, show) {
        Ok(Value::Bound(callable, receiver)) => {
            assert_eq!(callable.value(&heap.values), &builtins.print);
            assert_eq!(receiver.value(&heap.values), &object);
            assert_eq!(heap.values.len(), before + 2);
        }
        other => panic!("expected a bound callable, found {:?}", other),
    }
    assert_eq!(set_property(&mut heap, object, w, Value::Bool(true)), Ok(()));
    assert_eq!(get_property(&mut heap, &builtins, object, w), Ok(Value::Bool(true)));
    assert_eq!(
        set_property(&mut heap, Value::Integer(1), w, Value::Null),
        Err(RuntimeError::ProtocolMissing)
    );
}

#[test]
fn equality_of_values() {
    let mut heap = Heap::new();
    let builtins = Builtins::new(&mut heap);
    let a = Value::String(string(&mut heap, "same"));
    let b = Value::String(string(&mut heap, "same"));
    let c = Value::String(string(&mut heap, "other"));
    let types = builtins.types;
    let object = Value::Object(PtrMut::new(&mut heap.objects, Object::new(types.object, Table::new())));
    let twin = Value::Object(PtrMut::new(&mut heap.objects, Object::new(types.object, Table::new())));
    let float = |value: f64| Value::Float(value.to_bits());
    let cases = [
        (Value::Bool(true), Value::Bool(true), true),
        (Value::Bool(true), Value::Bool(false), false),
        (Value::Bool(true), Value::Integer(7), true),
        (Value::Bool(false), Value::Integer(0), true),
        (Value::Bool(true), Value::Integer(0), false),
        (Value::Bool(true), float(0.5), true),
        (Value::Bool(false), float(-0.0), true),
        (Value::Integer(3), Value::Integer(3), true),
        (Value::Integer(3), Value::Integer(4), false),
        (Value::Integer(3), float(3.0), true),
        (Value::Integer(3), float(3.5), false),
        (Value::Integer(0), Value::Bool(false), true),
        (float(1.5), float(1.5), true),
        (float(0.0), float(-0.0), true),
        (float(f64::NAN), float(f64::NAN), false),
        (float(2.0), Value::Integer(2), true),
        (float(0.0), Value::Bool(false), true),
        (Value::Type(types.integer), Value::Type(types.integer), true),
        (Value::Type(types.object), Value::Type(types.ty), false),
        (a, a, true),
        (a, b, true),
        (a, c, false),
        (object, object, true),
        (object, twin, false),
        (Value::Null, Value::Null, true),
        (Value::Null, Value::Bool(false), false),
        (builtins.print, builtins.print, true),
        (
            builtins.print,
            Value::Native(NativeFunction::ListPush, ArgPattern::Any),
            false,
        ),
        (Value::Integer(1), a, false),
    ];
    for (lhs, rhs, expected) in cases {
        assert_eq!(equals(&heap.strings, &lhs, &rhs), expected, "{:?} == {:?}", lhs, rhs);
    }
}

#[test]
fn integer_operations_are_exact_or_fail() {
    assert_eq!(integer_operation(Arithmetic::Add, 2, 3), Ok(Value::Integer(5)));
    assert_eq!(integer_operation(Arithmetic::Subtract, 2, 3), Ok(Value::Integer(-1)));
    assert_eq!(integer_operation(Arithmetic::Multiply, -2, 3), Ok(Value::Integer(-6)));
    assert_eq!(integer_operation(Arithmetic::Divide, -7, 2), Ok(Value::Integer(-3)));
    assert_eq!(integer_operation(Arithmetic::Divide, -7, -2), Ok(Value::Integer(3)));
    assert_eq!(integer_operation(Arithmetic::Divide, 0, 5), Ok(Value::Integer(0)));
    assert_eq!(integer_operation(Arithmetic::Divide, 5, 0), Err(RuntimeError::DivisionByZero));
    assert_eq!(integer_operation(Arithmetic::Divide, i64::MIN, -1), Err(RuntimeError::Overflow));
    assert_eq!(integer_operation(Arithmetic::Add, i64::MAX, 1), Err(RuntimeError::Overflow));
    assert_eq!(integer_operation(Arithmetic::Subtract, i64::MIN, 1), Err(RuntimeError::Overflow));
    assert_eq!(integer_operation(Arithmetic::Multiply, i64::MAX, 2), Err(RuntimeError::Overflow));
}

#[test]
fn list_add_makes_a_new_list() {
    let mut lists: Vec<Vec<Value>> = Vec::new();
    let a = PtrMut::new(&mut lists, vec![Value::Integer(1)]);
    let b = PtrMut::new(&mut lists, vec![Value::Integer(2), Value::Integer(3)]);
    let sum = list_add(&mut lists, &vec![Value::List(a), Value::List(b)]);
    match sum {
        Ok(Value::List(sum)) => {
            assert_eq!(sum.id(), 2);
            assert_eq!(
                sum.value(&lists),
                &vec![Value::Integer(1), Value::Integer(2), Value::Integer(3)]
            );
        }
        other => panic!("expected a list, found {:?}", other),
    }
    assert_eq!(a.value(&lists), &vec![Value::Integer(1)]);
    assert_eq!(b.value(&lists), &vec![Value::Integer(2), Value::Integer(3)]);
    assert_eq!(
        list_add(&mut lists, &vec![Value::List(a), Value::Integer(1)]),
        Err(RuntimeError::TypeMismatch)
    );
    assert_eq!(list_add(&mut lists, &vec![Value::List(a)]), Err(RuntimeError::ArityMismatch));
}

#[test]
fn built_in_functions_on_the_heap() {
    let mut heap = Heap::new();
    let builtins = Builtins::new(&mut heap);
    let list = Value::List(PtrMut::new(&mut heap.lists, vec![Value::Integer(1)]));
    let run = |heap: &mut Heap, native, args: Vec<Value>| run_native(heap, &builtins, &Unit, native, &args);
    assert_eq!(run(&mut heap, NativeFunction::ListPush, vec![list, Value::Integer(2)]), Ok(Value::Null));
    assert_eq!(
        run(&mut heap, NativeFunction::ListGetSubscript, vec![list, Value::Integer(1)]),
        Ok(Value::Integer(2))
    );
    assert_eq!(
        run(&mut heap, NativeFunction::ListGetSubscript, vec![list, Value::Integer(2)]),
        Err(RuntimeError::IndexOutOfBounds)
    );
    assert_eq!(
        run(&mut heap, NativeFunction::ListGetSubscript, vec![list, Value::Integer(-1)]),
        Err(RuntimeError::IndexOutOfBounds)
    );
    assert_eq!(
        run(&mut heap, NativeFunction::ListGetSubscript, vec![list, Value::Null]),
        Err(RuntimeError::TypeMismatch)
    );
    assert_eq!(
        run(&mut heap, NativeFunction::ListGetSubscript, vec![Value::Null, Value::Integer(0)]),
        Err(RuntimeError::TypeMismatch)
    );
    assert_eq!(
        run(&mut heap, NativeFunction::ListSetSubscript, vec![list, Value::Integer(0), Value::Bool(true)]),
        Ok(Value::Null)
    );
    assert_eq!(
        run(&mut heap, NativeFunction::ListSetSubscript, vec![list, Value::Integer(2), Value::Bool(true)]),
        Err(RuntimeError::IndexOutOfBounds)
    );
    assert_eq!(
        run(&mut heap, NativeFunction::ListGetSubscript, vec![list, Value::Integer(0)]),
        Ok(Value::Bool(true))
    );
    assert_eq!(
        run(
            &mut heap,
            NativeFunction::IntegerComparison(Comparison::LessThanOrEqual),
            vec![Value::Integer(2), Value::Integer(2)]
        ),
        Ok(Value::Bool(true))
    );
    assert_eq!(
        run(
            &mut heap,
            NativeFunction::IntegerComparison(Comparison::GreaterThan),
            vec![Value::Integer(2), Value::Float(1.5f64.to_bits())]
        ),
        Ok(Value::Bool(true))
    );
    assert_eq!(
        run(
            &mut heap,
            NativeFunction::IntegerArithmetic(Arithmetic::Add),
            vec![Value::Float(1.5f64.to_bits()), Value::Integer(2)]
        ),
        Err(RuntimeError::TypeMismatch)
    );
    assert_eq!(
        run(
            &mut heap,
            NativeFunction::FloatArithmetic(Arithmetic::Multiply),
            vec![Value::Float(1.5f64.to_bits()), Value::Integer(2)]
        ),
        Ok(Value::Float(3.0f64.to_bits()))
    );
    assert_eq!(
        run(
            &mut heap,
            NativeFunction::FloatArithmetic(Arithmetic::Add),
            vec![Value::Integer(2), Value::Float(1.5f64.to_bits())]
        ),
        Err(RuntimeError::TypeMismatch)
    );
    assert_eq!(
        run(
            &mut heap,
            NativeFunction::FloatComparison(Comparison::GreaterThanOrEqual),
            vec![Value::Float(1.5f64.to_bits()), Value::Float(1.5f64.to_bits())]
        ),
        Ok(Value::Bool(true))
    );
    assert_eq!(
        run(&mut heap, NativeFunction::NotEquals, vec![Value::Integer(1), Value::Integer(2)]),
        Ok(Value::Bool(true))
    );
    assert_eq!(run(&mut heap, NativeFunction::StringDisplay, vec![Value::Integer(1)]), Ok(Value::Integer(1)));
    let shown = |heap: &mut Heap, native, args: Vec<Value>| match run_native(heap, &builtins, &Unit, native, &args) {
        Ok(Value::String(text)) => Ok(text.value(&heap.strings).clone()),
        Ok(other) => panic!("expected a string, found {:?}", other),
        Err(e) => Err(e),
    };
    assert_eq!(shown(&mut heap, NativeFunction::IntegerDisplay, vec![Value::Integer(-5)]), Ok("-5".to_string()));
    assert_eq!(
        shown(&mut heap, NativeFunction::IntegerDisplay, vec![Value::Bool(true)]),
        Err(RuntimeError::TypeMismatch)
    );
    assert_eq!(shown(&mut heap, NativeFunction::BoolDisplay, vec![Value::Bool(true)]), Ok("true".to_string()));
    assert_eq!(shown(&mut heap, NativeFunction::BoolDisplay, vec![Value::Bool(false)]), Ok("false".to_string()));
    assert_eq!(
        shown(&mut heap, NativeFunction::FloatDisplay, vec![Value::Float(0.25f64.to_bits())]),
        Ok("0.25".to_string())
    );
    let tags = [
        (NativeFunction::FunctionDisplay, "<function object>"),
        (NativeFunction::FrameDisplay, "<frame object>"),
        (NativeFunction::NativeDisplay, "<native function>"),
        (NativeFunction::CodeDisplay, "<code object>"),
        (NativeFunction::NullDisplay, "null"),
        (NativeFunction::ObjectDisplay, "<object>"),
        (NativeFunction::TypeDisplay, "<type object>"),
    ];
    for (native, tag) in tags {
        assert_eq!(shown(&mut heap, native, vec![Value::Null]), Ok(tag.to_string()));
    }
    let left = Value::String(string(&mut heap, "ab"));
    let right = Value::String(string(&mut heap, "cd"));
    assert_eq!(shown(&mut heap, NativeFunction::StringAdd, vec![left, right]), Ok("abcd".to_string()));
    assert_eq!(left.string().unwrap().value(&heap.strings), "ab");
    assert_eq!(right.string().unwrap().value(&heap.strings), "cd");
}

#[test]
fn a_bound_callable_gets_its_receiver_first() {
    let mut heap = Heap::new();
    let builtins = Builtins::new(&mut heap);
    let push = Value::Native(NativeFunction::ListPush, ArgPattern::Exact(2));
    let list = Value::List(PtrMut::new(&mut heap.lists, vec![]));
    let callable = Ptr::new(&mut heap.values, push);
    let receiver = Ptr::new(&mut heap.values, list);
    let bound = Value::Bound(callable, receiver);
    assert_eq!(
        resolve_callable(&heap, &builtins, bound, &vec![Value::Integer(1)], 1),
        Ok((push, vec![list, Value::Integer(1)]))
    );
    assert_eq!(
        resolve_callable(&heap, &builtins, bound, &vec![Value::Integer(1)], 0),
        Err(RuntimeError::TooDeep)
    );
    assert_eq!(
        resolve_callable(&heap, &builtins, push, &vec![Value::Integer(1)], 0),
        Ok((push, vec![Value::Integer(1)]))
    );
    assert_eq!(
        resolve_callable(&heap, &builtins, Value::Integer(1), &vec![], 3),
        Err(RuntimeError::ProtocolMissing)
    );
}

#[test]
fn steps_execute_one_instruction_each() {
    let mut interpreter = machine(
        vec![
            Instruction::LoadConstant(0),
            Instruction::Declare(0),
            Instruction::LoadVariable(0),
            Instruction::LoadConstant(1),
            Instruction::Subtract,
            Instruction::JumpFalse(7),
            Instruction::Exit(1),
            Instruction::Exit(2),
            Instruction::Exit(3),
        ],
        vec![Value::Integer(5), Value::Integer(5)],
        &["x"],
    );
    let frame = interpreter.active_frame();
    let counter = |interpreter: &Interpreter<Unit>| frame.value(&interpreter.heap().frames).program_counter();
    let depth = |interpreter: &Interpreter<Unit>| frame.value(&interpreter.heap().frames).depth();
    assert_eq!(interpreter.fuel(), u64::MAX);
    assert_eq!(interpreter.step(), Ok(Status::Running));
    assert_eq!((counter(&interpreter), depth(&interpreter)), (1, 1));
    assert_eq!(interpreter.fuel(), u64::MAX - 1);
    assert_eq!(interpreter.step(), Ok(Status::Running));
    assert_eq!((counter(&interpreter), depth(&interpreter)), (2, 0));
    assert_eq!(
        frame.value(&interpreter.heap().frames).variable(&"x".to_string()),
        Some(Value::Integer(5))
    );
    assert_eq!(interpreter.step(), Ok(Status::Running));
    assert_eq!(interpreter.step(), Ok(Status::Running));
    assert_eq!((counter(&interpreter), depth(&interpreter)), (4, 2));
    assert_eq!(interpreter.step(), Ok(Status::Running));
    assert_eq!((counter(&interpreter), depth(&interpreter)), (5, 1));
    assert_eq!(interpreter.step(), Ok(Status::Running));
    assert_eq!((counter(&interpreter), depth(&interpreter)), (8, 0));
    assert_eq!(interpreter.step(), Ok(Status::Exited(3)));
    assert_eq!(counter(&interpreter), 8);
    assert_eq!(interpreter.run(), Ok(3));
}

#[test]
fn a_jump_continues_after_its_target() {
    let mut interpreter = machine(
        vec![Instruction::Jump(1), Instruction::Exit(1), Instruction::Exit(2)],
        vec![],
        &[],
    );
    assert_eq!(interpreter.run(), Ok(2));
}

#[test]
fn return_without_a_caller_exits_with_zero() {
    let mut interpreter =
        machine(vec![Instruction::LoadConstant(0), Instruction::Return], vec![Value::Integer(9)], &[]);
    assert_eq!(interpreter.run(), Ok(0));
}

#[test]
fn corrupt_code_is_reported() {
    let corrupt = vec![
        vec![Instruction::Pop],
        vec![Instruction::LoadConstant(3)],
        vec![Instruction::LoadVariable(3)],
        vec![Instruction::Return],
        vec![Instruction::Call(0)],
        vec![Instruction::CreateList(1)],
        vec![Instruction::CreateFunction],
        vec![Instruction::LoadConstant(0), Instruction::CreateFunction],
        vec![Instruction::Add],
        vec![Instruction::LoadConstant(0), Instruction::Add],
        vec![Instruction::Jump(usize::MAX)],
        vec![Instruction::Jump(5)],
        vec![Instruction::LoadConstant(0)],
        vec![],
    ];
    for instructions in corrupt {
        let mut interpreter = machine(instructions.clone(), vec![Value::Integer(1)], &["x"]);
        assert_eq!(interpreter.run(), Err(RuntimeError::StackCorruption), "{:?}", instructions);
    }
}

#[test]
fn a_condition_must_be_a_number_or_a_boolean() {
    let mut interpreter = machine(
        vec![Instruction::LoadConstant(0), Instruction::JumpFalse(0)],
        vec![Value::Null],
        &[],
    );
    assert_eq!(interpreter.run(), Err(RuntimeError::TypeMismatch));
}

#[test]
fn call_with_return_runs_a_call_to_its_end() {
    let mut interpreter = machine(vec![Instruction::Exit(0)], vec![], &[]);
    let add = Value::Native(NativeFunction::IntegerArithmetic(Arithmetic::Add), ArgPattern::Exact(2));
    assert_eq!(
        interpreter.call_with_return(add, &vec![Value::Integer(2), Value::Integer(3)]),
        Ok(Outcome::Value(Value::Integer(5)))
    );
    assert_eq!(
        interpreter.call_with_return(add, &vec![Value::Integer(2)]),
        Err(RuntimeError::ArityMismatch)
    );
    let print = interpreter.builtins().print;
    assert_eq!(
        interpreter.call_with_return(print, &vec![Value::Integer(2), Value::Bool(false)]),
        Ok(Outcome::Value(Value::Null))
    );
    assert_eq!(interpreter.take_output(), "2, false\n");
    assert_eq!(interpreter.take_output(), "");
    assert_eq!(
        interpreter.call_with_return(Value::Integer(1), &vec![]),
        Err(RuntimeError::ProtocolMissing)
    );
}

#[test]
fn call_with_return_runs_a_user_function_in_a_frame_of_its_own() {
    let mut heap = Heap::new();
    let builtins = Builtins::new(&mut heap);
    let a = string(&mut heap, "a");
    let body = Ptr::new(
        &mut heap.codes,
        Code::new(
            vec![
                Instruction::LoadVariable(0),
                Instruction::LoadVariable(0),
                Instruction::Multiply,
                Instruction::Return,
            ],
            vec![],
            vec![a],
            1,
        ),
    );
    let main = Ptr::new(&mut heap.codes, Code::new(vec![Instruction::Exit(0)], vec![], vec![], 0));
    let frame = PtrMut::new(&mut heap.frames, Frame::new(main, None, None));
    let square = Value::Function(Ptr::new(&mut heap.functions, Function::new(body, frame)));
    let mut interpreter = Interpreter::new(heap, frame, builtins, Unit);
    assert_eq!(
        interpreter.call_with_return(square, &vec![Value::Integer(7)]),
        Ok(Outcome::Value(Value::Integer(49)))
    );
    assert_eq!(interpreter.active_frame(), frame);
    assert_eq!(frame.value(&interpreter.heap().frames).depth(), 0);
    assert_eq!(
        interpreter.call_with_return(square, &vec![]),
        Err(RuntimeError::ArityMismatch)
    );
    interpreter.set_fuel(2);
    assert_eq!(
        interpreter.call_with_return(square, &vec![Value::Integer(7)]),
        Err(RuntimeError::OutOfFuel)
    );
}

#[test]
fn a_type_can_make_its_values_callable_and_display_them() {
    let mut heap = Heap::new();
    let builtins = Builtins::new(&mut heap);
    let name = string(&mut heap, "adder");
    let shown = Value::String(string(&mut heap, "<adder>"));
    let display = Ptr::new(
        &mut heap.codes,
        Code::new(vec![Instruction::LoadConstant(0), Instruction::Return], vec![shown], vec![name], 1),
    );
    let main = Ptr::new(&mut heap.codes, Code::new(vec![Instruction::Exit(0)], vec![], vec![], 0));
    let frame = PtrMut::new(&mut heap.frames, Frame::new(main, None, None));
    let mut ty = Type::new(name, builtins.types.object);
    ty.call = Some(Value::Native(NativeFunction::Equals, ArgPattern::Exact(2)));
    ty.display = Some(Value::Function(Ptr::new(&mut heap.functions, Function::new(display, frame))));
    let ty = Ptr::new(&mut heap.types, ty);
    let object = Value::Object(PtrMut::new(&mut heap.objects, Object::new(ty, Table::new())));
    let list = Value::List(PtrMut::new(&mut heap.lists, vec![object, Value::Integer(1)]));
    let mut interpreter = Interpreter::new(heap, frame, builtins, Unit);
    assert_eq!(
        interpreter.call_with_return(object, &vec![object]),
        Ok(Outcome::Value(Value::Bool(true)))
    );
    assert_eq!(
        interpreter.call_with_return(object, &vec![Value::Null]),
        Ok(Outcome::Value(Value::Bool(false)))
    );
    let print = interpreter.builtins().print;
    assert_eq!(interpreter.call_with_return(print, &vec![list]), Ok(Outcome::Value(Value::Null)));
    assert_eq!(interpreter.take_output(), "[<adder>, 1]\n");
    assert_eq!(interpreter.active_frame(), frame);
}

#[test]
fn nesting_deeper_than_the_limit_is_an_error() {
    let mut heap = Heap::new();
    let builtins = Builtins::new(&mut heap);
    let main = Ptr::new(&mut heap.codes, Code::new(vec![Instruction::Exit(0)], vec![], vec![], 0));
    let frame = PtrMut::new(&mut heap.frames, Frame::new(main, None, None));
    let list = PtrMut::new(&mut heap.lists, vec![]);
    list.value_mut(&mut heap.lists).push(Value::List(list));
    let mut interpreter = Interpreter::new(heap, frame, builtins, Unit);
    let print = interpreter.builtins().print;
    assert_eq!(
        interpreter.call_with_return(print, &vec![Value::List(list)]),
        Err(RuntimeError::TooDeep)
    );
    interpreter.set_max_depth(0);
    assert_eq!(
        interpreter.call_with_return(print, &vec![Value::Integer(1)]),
        Err(RuntimeError::TooDeep)
    );
    assert_eq!(interpreter.call_with_return(print, &vec![]), Ok(Outcome::Value(Value::Null)));
    assert_eq!(interpreter.take_output(), "\n");
}

#[test]
fn instruction_handlers_pop_their_operands_and_call() {
    let mut interpreter = machine(
        vec![Instruction::Exit(0)],
        vec![],
        &["push", "missing"],
    );
    let frame = interpreter.active_frame();
    assert_eq!(interpreter.load_property(0), Err(RuntimeError::StackCorruption));
    assert_eq!(interpreter.load_subscript(), Err(RuntimeError::StackCorruption));
    assert_eq!(interpreter.store_property(0), Err(RuntimeError::StackCorruption));
    assert_eq!(interpreter.store_subscript(), Err(RuntimeError::StackCorruption));
    assert_eq!(frame.value(&interpreter.heap().frames).depth(), 0);
}

#[test]
fn handlers_leave_the_result_to_the_caller() {
    let mut heap = Heap::new();
    let builtins = Builtins::new(&mut heap);
    let push = string(&mut heap, "push");
    let list = Value::List(PtrMut::new(&mut heap.lists, vec![Value::Integer(4), Value::Integer(5)]));
    let code = Ptr::new(&mut heap.codes, Code::new(vec![Instruction::Exit(0)], vec![], vec![push], 0));
    let mut frame = Frame::new(code, None, None);
    frame.extend(&vec![
        Value::Integer(9),
        Value::Integer(0),
        list,
        Value::Integer(1),
        list,
        list,
    ]);
    let frame = PtrMut::new(&mut heap.frames, frame);
    let mut interpreter = Interpreter::new(heap, frame, builtins, Unit);
    match interpreter.load_property(0) {
        Ok(Called::Done(Outcome::Value(Value::Bound(callable, receiver)))) => {
            assert_eq!(
                callable.value(&interpreter.heap().values),
                &Value::Native(NativeFunction::ListPush, ArgPattern::Exact(2))
            );
            assert_eq!(receiver.value(&interpreter.heap().values), &list);
        }
        other => panic!("expected a bound method, found {:?}", other),
    }
    assert_eq!(frame.value(&interpreter.heap().frames).depth(), 5);
    assert_eq!(
        interpreter.load_subscript(),
        Ok(Called::Done(Outcome::Value(Value::Integer(5))))
    );
    assert_eq!(frame.value(&interpreter.heap().frames).depth(), 3);
    assert_eq!(interpreter.store_subscript(), Ok(Called::Done(Outcome::Value(Value::Null))));
    assert_eq!(frame.value(&interpreter.heap().frames).depth(), 0);
    assert_eq!(frame.value(&interpreter.heap().frames).program_counter(), 0);
    assert_eq!(
        list.list().unwrap().value(&interpreter.heap().lists),
        &vec![Value::Integer(9), Value::Integer(5)]
    );
}

#[test]
fn integers_convert_to_the_nearest_number() {
    let mut cases: Vec<i64> = vec![
        0,
        1,
        -1,
        2,
        3,
        -7,
        1023,
        1 << 52,
        (1 << 52) + 1,
        (1 << 53) - 1,
        1 << 53,
        (1 << 53) + 1,
        (1 << 53) + 2,
        (1 << 53) + 3,
        (1 << 54) + 2,
        (1 << 54) + 6,
        (1 << 60) + (1 << 7),
        (1 << 60) + (1 << 7) + 1,
        (1 << 60) + (3 << 7),
        (1 << 62) - 1,
        1 << 62,
        i64::MAX,
        i64::MAX - 1,
        i64::MAX - 511,
        i64::MAX - 512,
        i64::MAX - 513,
        i64::MIN,
        i64::MIN + 1,
    ];
    let negated: Vec<i64> = cases.iter().filter(|v| **v != i64::MIN).map(|v| -v).collect();
    cases.extend(negated);
    let mut seed: u64 = 0x2545_f491_4f6c_dd1d;
    for _ in 0..2000 {
        seed ^= seed << 13;
        seed ^= seed >> 7;
        seed ^= seed << 17;
        cases.push(seed as i64);
        cases.push((seed >> (seed % 64)) as i64);
    }
    for value in cases {
        assert_eq!(bits_from_integer(value), (value as f64).to_bits(), "{}", value);
    }
}

#[test]
fn numbers_truncate_to_integers() {
    let mut cases: Vec<f64> = vec![
        0.0,
        -0.0,
        0.5,
        -0.5,
        0.999,
        1.0,
        -1.0,
        1.5,
        -1.5,
        2.9,
        -2.9,
        1e10,
        -1e10,
        4503599627370496.0,
        4503599627370497.0,
        9007199254740992.0,
        9007199254740993.5,
        1e18,
        9223372036854775807.0,
        9223372036854774784.0,
        -9223372036854775808.0,
        -9223372036854777856.0,
        1e19,
        -1e19,
        1e300,
        -1e300,
        5e-324,
        f64::MIN_POSITIVE,
        f64::MAX,
        f64::MIN,
        f64::INFINITY,
        f64::NEG_INFINITY,
        f64::NAN,
        -f64::NAN,
    ];
    let mut seed: u64 = 0x9e37_79b9_7f4a_7c15;
    for _ in 0..4000 {
        seed ^= seed << 13;
        seed ^= seed >> 7;
        seed ^= seed << 17;
        cases.push(f64::from_bits(seed));
        cases.push((seed as i64) as f64 / 1024.0);
    }
    for value in cases {
        assert_eq!(bits_truncate(value.to_bits()), value as i64, "{}", value);
    }
}

#[test]
fn a_method_of_a_type_gets_the_object_it_was_read_from() {
    let mut heap = Heap::new();
    let builtins = Builtins::new(&mut heap);
    let this = string(&mut heap, "this");
    let object_name = string(&mut heap, "thing");
    let method_name = string(&mut heap, "me");
    let method = Ptr::new(
        &mut heap.codes,
        Code::new(vec![Instruction::LoadVariable(0), Instruction::Return], vec![], vec![this], 1),
    );
    let main = Ptr::new(
        &mut heap.codes,
        Code::new(
            vec![
                Instruction::LoadVariable(0),
                Instruction::LoadProperty(1),
                Instruction::Call(0),
                Instruction::LoadVariable(0),
                Instruction::Equals,
                Instruction::JumpFalse(6),
                Instruction::Exit(7),
                Instruction::Exit(8),
            ],
            vec![],
            vec![object_name, method_name],
            0,
        ),
    );
    let frame = PtrMut::new(&mut heap.frames, Frame::new(main, None, None));
    let function = Value::Function(Ptr::new(&mut heap.functions, Function::new(method, frame)));
    let mut ty = Type::new(object_name, builtins.types.object);
    ty.properties.insert("me".to_string(), function);
    let ty = Ptr::new(&mut heap.types, ty);
    let object = Value::Object(PtrMut::new(&mut heap.objects, Object::new(ty, Table::new())));
    frame.value_mut(&mut heap.frames).declare("thing".to_string(), object);
    let mut interpreter = Interpreter::new(heap, frame, builtins, Unit);
    assert_eq!(interpreter.run(), Ok(7));
}

#[test]
fn the_call_slot_is_found_along_the_chain_of_types() {
    let mut heap = Heap::new();
    let builtins = Builtins::new(&mut heap);
    let name = string(&mut heap, "callable");
    let mut base = Type::new(name, builtins.types.object);
    base.call = Some(Value::Native(NativeFunction::ListAdd, ArgPattern::Exact(3)));
    let base = Ptr::new(&mut heap.types, base);
    let derived = Ptr::new(&mut heap.types, Type::new(name, base));
    let object = Value::Object(PtrMut::new(&mut heap.objects, Object::new(derived, Table::new())));
    assert_eq!(
        resolve_callable(&heap, &builtins, object, &vec![Value::Null], 1),
        Ok((
            Value::Native(NativeFunction::ListAdd, ArgPattern::Exact(3)),
            vec![object, Value::Null]
        ))
    );
    assert_eq!(
        get_native_prop(&heap, &builtins, object, Slot::Equals),
        Ok(Value::Native(NativeFunction::Equals, ArgPattern::Exact(2)))
    );
}
