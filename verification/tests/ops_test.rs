use dayum::vm::ops::{Arith, ArithError, Obj, VirtualMachine};
use dayum::vm::rules::ArithOp;
use dayum::vm::types::Val;

#[test]
fn val_int_round_trip() {
    for i in [0i64, 1, -1, 42, -42, Val::INT_MAX, Val::INT_MIN] {
        let v = Val::from_int(i);
        assert!(v.is_int());
        assert!(!v.is_float());
        assert!(!v.is_bool());
        assert!(!v.is_heap());
        assert_eq!(v.as_int(), i);
    }
}

#[test]
fn val_int_checked_range() {
    assert!(Val::int_checked(Val::INT_MAX).is_some());
    assert!(Val::int_checked(Val::INT_MAX + 1).is_none());
    assert!(Val::int_checked(Val::INT_MIN - 1).is_none());
    assert_eq!(Val::from_int(Val::INT_MAX + 1).as_int(), Val::INT_MIN);
}

#[test]
fn val_bool_round_trip() {
    let t = Val::bool(true);
    let f = Val::bool(false);
    assert!(t.is_bool() && f.is_bool());
    assert!(t.is_true() && !t.is_false());
    assert!(f.is_false() && !f.is_true());
    assert!(t.as_bool());
    assert!(!f.as_bool());
    assert!(!t.is_int() && !t.is_float() && !t.is_heap() && !t.is_numeric());
}

#[test]
fn val_float_boxing() {
    let v = Val::from_float_bits(1.5f64.to_bits());
    assert!(v.is_float());
    assert!(v.is_numeric());
    assert_eq!(v.to_bits(), 1.5f64.to_bits());
    let nan = Val::from_float_bits(f64::NAN.to_bits() | 0x7FFC_0000_0000_0000);
    assert!(!nan.is_int());
}

#[test]
fn virtual_machine_integer_arithmetic() {
    let mut vm = VirtualMachine::new();
    let a = Val::from_int(7);
    let b = Val::from_int(-2);
    assert!(matches!(vm.add(a, b), Ok(Arith::Value(v)) if v.as_int() == 5));
    assert!(matches!(vm.sub(a, b), Ok(Arith::Value(v)) if v.as_int() == 9));
    assert!(matches!(vm.mul(a, b), Ok(Arith::Value(v)) if v.as_int() == -14));
    assert!(matches!(vm.div(a, b), Ok(Arith::Value(v)) if v.as_int() == -3));
    let big = Val::from_int(Val::INT_MAX);
    assert!(matches!(vm.add(big, Val::from_int(1)), Ok(Arith::Value(v)) if v.as_int() == Val::INT_MIN));
}

#[test]
fn virtual_machine_float_operands_are_handed_back() {
    let mut vm = VirtualMachine::new();
    let x = Val::from_float_bits(2.5f64.to_bits());
    let i = Val::from_int(2);
    assert!(matches!(vm.add(x, i), Ok(Arith::Float { op: ArithOp::Add, lhs, rhs }) if lhs == x && rhs == i));
    assert!(matches!(vm.div(i, x), Ok(Arith::Float { op: ArithOp::Div, .. })));
}

#[test]
fn virtual_machine_wrong_types() {
    let mut vm = VirtualMachine::new();
    let t = Val::bool(true);
    let i = Val::from_int(1);
    assert_eq!(vm.add(t, i).err(), Some(ArithError::WrongType));
    assert_eq!(vm.sub(t, i).err(), Some(ArithError::WrongType));
    assert_eq!(vm.mul(i, t).err(), Some(ArithError::WrongType));
    assert_eq!(vm.div(t, t).err(), Some(ArithError::WrongType));
}

#[test]
fn virtual_machine_concatenates_heap_strings() {
    let mut vm = VirtualMachine::new();
    let a = vm.heap.alloc_obj(Obj::Str("foo".to_string())).unwrap();
    let b = vm.heap.alloc_obj(Obj::Str("bar".to_string())).unwrap();
    assert!(a.is_heap() && b.is_heap());
    assert_eq!(a.as_heap(), 0);
    assert_eq!(b.as_heap(), 1);
    match vm.add(a, b) {
        Ok(Arith::Value(v)) => {
            assert_eq!(v.as_heap(), 2);
            assert_eq!(vm.heap.get_str(v).unwrap(), "foobar");
        }
        other => panic!("unexpected {:?}", other),
    }
    let dangling = vm.heap.alloc_obj(Obj::Str("x".to_string())).unwrap();
    let mut other = VirtualMachine::new();
    assert_eq!(other.add(dangling, dangling).err(), Some(ArithError::BadReference));
}
