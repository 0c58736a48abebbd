use std::hash::Hasher;
use pybytes::bigint::Int;
use pybytes::bytes::{bytes_eq, bytes_hash, bytes_new, bytes_repr, call_builtin, get_value, init};
use pybytes::object::{Builtin, Context, ObjectKind, PyError, Slot, Value};

fn int_value(ctx: &Context, n: i64) -> Value {
    ctx.new_int(Int::from_i64(n))
}

fn list_of(ctx: &Context, items: &[i64]) -> Value {
    let elems: Vec<Value> = items.iter().map(|n| int_value(ctx, *n)).collect();
    ctx.new_list(elems)
}

fn construct_from(ctx: &Context, items: &[i64]) -> Result<Value, PyError> {
    let args = vec![ctx.type_value(ctx.bytes_type), list_of(ctx, items)];
    bytes_new(ctx, &args)
}

fn bool_of(v: &Value) -> bool {
    match v.kind {
        ObjectKind::Bool(b) => b,
        _ => panic!("not a boolean"),
    }
}

fn str_of(v: &Value) -> String {
    match &v.kind {
        ObjectKind::Str(s) => s.clone(),
        _ => panic!("not a string"),
    }
}

fn hash_digits(ctx: &Context, v: Value) -> (bool, Vec<u32>) {
    let r = bytes_hash(ctx, &vec![v]).unwrap();
    match r.kind {
        ObjectKind::Integer(i) => (i.negative, i.digits),
        _ => panic!("not an integer"),
    }
}

fn equals(ctx: &Context, a: Value, b: Value) -> bool {
    bool_of(&bytes_eq(ctx, &vec![a, b]).unwrap())
}

fn repr(ctx: &Context, v: Value) -> String {
    str_of(&bytes_repr(ctx, &vec![v]).unwrap())
}

#[test]
fn repr_of_three_bytes() {
    let ctx = Context::new();
    let v = construct_from(&ctx, &[0, 255, 16]).unwrap();
    assert_eq!(repr(&ctx, v), "b'\\x00\\xff\\x10'");
}

#[test]
fn repr_of_empty() {
    let ctx = Context::new();
    let v = construct_from(&ctx, &[]).unwrap();
    assert_eq!(repr(&ctx, v), "b''");
}

#[test]
fn repr_of_letters_is_escaped() {
    let ctx = Context::new();
    let v = ctx.new_bytes(vec![b'A', 0x0a, 0xab]);
    assert_eq!(repr(&ctx, v), "b'\\x41\\x0a\\xab'");
}

#[test]
fn construct_rejects_unrelated_class() {
    let ctx = Context::new();
    let args = vec![ctx.type_value(ctx.str_type), list_of(&ctx, &[1])];
    let e = bytes_new(&ctx, &args).unwrap_err();
    assert_eq!(e, PyError::NotSubtype { class: ctx.str_type });
    assert!(e.is_type_error());
    assert!(!e.is_value_error());
}

#[test]
fn construct_rejects_class_that_is_no_type() {
    let ctx = Context::new();
    let args = vec![int_value(&ctx, 3)];
    let e = bytes_new(&ctx, &args).unwrap_err();
    assert_eq!(e, PyError::ArgType { position: 0, expected: ctx.type_type });
    assert!(e.is_type_error());
}

#[test]
fn construct_rejects_256() {
    let ctx = Context::new();
    let e = construct_from(&ctx, &[256]).unwrap_err();
    assert_eq!(e, PyError::ByteRange { position: 0 });
    assert!(e.is_value_error());
    assert!(!e.is_type_error());
}

#[test]
fn construct_rejects_minus_one() {
    let ctx = Context::new();
    let e = construct_from(&ctx, &[1, -1]).unwrap_err();
    assert_eq!(e, PyError::ByteRange { position: 1 });
    assert!(e.is_value_error());
}

#[test]
fn construct_rejects_huge_integer() {
    let ctx = Context::new();
    let big = Int { negative: false, digits: vec![5, 1] };
    let args = vec![ctx.type_value(ctx.bytes_type), ctx.new_list(vec![ctx.new_int(big)])];
    assert_eq!(bytes_new(&ctx, &args).unwrap_err(), PyError::ByteRange { position: 0 });
}

#[test]
fn construct_accepts_padded_digits() {
    let ctx = Context::new();
    let padded = Int { negative: false, digits: vec![200, 0, 0] };
    let zero = Int { negative: true, digits: vec![] };
    let args = vec![
        ctx.type_value(ctx.bytes_type),
        ctx.new_list(vec![ctx.new_int(padded), ctx.new_int(zero), ctx.new_bool(true)]),
    ];
    let v = bytes_new(&ctx, &args).unwrap();
    assert_eq!(*get_value(&v), vec![200u8, 0, 1]);
}

#[test]
fn construct_rejects_non_integer_element() {
    let ctx = Context::new();
    let elems = vec![int_value(&ctx, 1), ctx.new_str(String::from("x"))];
    let args = vec![ctx.type_value(ctx.bytes_type), ctx.new_list(elems)];
    let e = bytes_new(&ctx, &args).unwrap_err();
    assert_eq!(e, PyError::NotInteger { found: ctx.str_type });
    assert!(e.is_type_error());
}

#[test]
fn construct_rejects_non_iterable() {
    let ctx = Context::new();
    let args = vec![ctx.type_value(ctx.bytes_type), int_value(&ctx, 4)];
    let e = bytes_new(&ctx, &args).unwrap_err();
    assert_eq!(e, PyError::NotIterable { found: ctx.int_type });
}

#[test]
fn construct_without_iterable_is_empty() {
    let ctx = Context::new();
    let v = bytes_new(&ctx, &vec![ctx.type_value(ctx.bytes_type)]).unwrap();
    assert_eq!(v.typ, ctx.bytes_type);
    assert!(get_value(&v).is_empty());
}

#[test]
fn construct_arity() {
    let ctx = Context::new();
    assert_eq!(bytes_new(&ctx, &vec![]).unwrap_err(), PyError::Arity { min: 1, max: 2, got: 0 });
    let t = ctx.type_value(ctx.bytes_type);
    let args = vec![t, list_of(&ctx, &[]), list_of(&ctx, &[])];
    assert_eq!(bytes_new(&ctx, &args).unwrap_err(), PyError::Arity { min: 1, max: 2, got: 3 });
}

#[test]
fn construct_subclass_keeps_class() {
    let mut ctx = Context::new();
    let sub = ctx.add_type(String::from("mybytes"), ctx.bytes_type);
    assert!(ctx.issubclass(sub, ctx.bytes_type));
    assert!(!ctx.issubclass(ctx.bytes_type, sub));
    let args = vec![ctx.type_value(sub), list_of(&ctx, &[7, 8])];
    let v = bytes_new(&ctx, &args).unwrap();
    assert_eq!(v.typ, sub);
    assert_eq!(*get_value(&v), vec![7u8, 8]);
    let w = construct_from(&ctx, &[7, 8]).unwrap();
    assert!(equals(&ctx, v, w));
}

#[test]
fn equals_with_no_arguments_fails() {
    let ctx = Context::new();
    let e = bytes_eq(&ctx, &vec![]).unwrap_err();
    assert_eq!(e, PyError::Arity { min: 2, max: 2, got: 0 });
    assert!(e.is_type_error());
}

#[test]
fn equals_with_non_bytes_receiver_fails() {
    let ctx = Context::new();
    let args = vec![int_value(&ctx, 1), ctx.new_bytes(vec![])];
    assert_eq!(
        bytes_eq(&ctx, &args).unwrap_err(),
        PyError::ArgType { position: 0, expected: ctx.bytes_type }
    );
}

#[test]
fn equals_end_to_end() {
    let ctx = Context::new();
    let a = construct_from(&ctx, &[1, 2, 3]).unwrap();
    let b = construct_from(&ctx, &[1, 2, 3]).unwrap();
    assert!(equals(&ctx, a, b));
    let a = construct_from(&ctx, &[1, 2, 3]).unwrap();
    let c = construct_from(&ctx, &[1, 2, 4]).unwrap();
    assert!(!equals(&ctx, a, c));
    let e = construct_from(&ctx, &[]).unwrap();
    assert!(!equals(&ctx, e, ctx.new_str(String::new())));
}

#[test]
fn equals_is_reflexive_and_symmetric() {
    let ctx = Context::new();
    let x = construct_from(&ctx, &[9, 0, 9]).unwrap();
    let x2 = construct_from(&ctx, &[9, 0, 9]).unwrap();
    assert!(equals(&ctx, x, x2));
    let y = ctx.new_bytes(vec![9, 0]);
    let x = construct_from(&ctx, &[9, 0, 9]).unwrap();
    assert!(!equals(&ctx, x, y));
    let y = ctx.new_bytes(vec![9, 0]);
    let x = construct_from(&ctx, &[9, 0, 9]).unwrap();
    assert!(!equals(&ctx, y, x));
    let x = construct_from(&ctx, &[9]).unwrap();
    assert!(!equals(&ctx, x, int_value(&ctx, 9)));
}

#[test]
fn equal_bytes_hash_alike() {
    let ctx = Context::new();
    let mut grown: Vec<u8> = Vec::new();
    for b in [3u8, 1, 4, 1, 5, 9, 2, 6] {
        grown.push(b);
        let items: Vec<i64> = grown.iter().map(|x| *x as i64).collect();
        let from_list = construct_from(&ctx, &items).unwrap();
        let from_vec = ctx.new_bytes(grown.clone());
        assert_eq!(hash_digits(&ctx, from_list), hash_digits(&ctx, from_vec));
    }
    let empty_a = construct_from(&ctx, &[]).unwrap();
    let empty_b = bytes_new(&ctx, &vec![ctx.type_value(ctx.bytes_type)]).unwrap();
    assert_eq!(hash_digits(&ctx, empty_a), hash_digits(&ctx, empty_b));
}

#[test]
fn hash_matches_default_hasher() {
    let ctx = Context::new();
    let data = vec![1u8, 2, 3];
    let mut h = std::collections::hash_map::DefaultHasher::new();
    h.write(&data);
    let expected = h.finish();
    let (neg, digits) = hash_digits(&ctx, ctx.new_bytes(data));
    assert!(!neg);
    let mut value: u64 = 0;
    for d in digits.iter().rev() {
        value = (value << 32) | (*d as u64);
    }
    assert_eq!(value, expected);
    assert!(digits.last().map_or(true, |d| *d != 0));
}

#[test]
fn hash_depends_on_order() {
    let ctx = Context::new();
    let a = hash_digits(&ctx, ctx.new_bytes(vec![1, 2]));
    let b = hash_digits(&ctx, ctx.new_bytes(vec![2, 1]));
    assert_ne!(a, b);
}

#[test]
fn hash_and_repr_arity() {
    let ctx = Context::new();
    let two = vec![ctx.new_bytes(vec![]), ctx.new_bytes(vec![])];
    assert_eq!(bytes_hash(&ctx, &two).unwrap_err(), PyError::Arity { min: 1, max: 1, got: 2 });
    assert_eq!(bytes_repr(&ctx, &vec![]).unwrap_err(), PyError::Arity { min: 1, max: 1, got: 0 });
    let not_bytes = vec![ctx.new_str(String::from("ab"))];
    assert_eq!(
        bytes_repr(&ctx, &not_bytes).unwrap_err(),
        PyError::ArgType { position: 0, expected: ctx.bytes_type }
    );
}

#[test]
fn init_installs_methods() {
    let mut ctx = Context::new();
    assert_eq!(ctx.get_attr(ctx.bytes_type, Slot::Eq), None);
    init(&mut ctx);
    assert_eq!(ctx.get_attr(ctx.bytes_type, Slot::Eq), Some(Builtin::BytesEq));
    assert_eq!(ctx.get_attr(ctx.bytes_type, Slot::Hash), Some(Builtin::BytesHash));
    assert_eq!(ctx.get_attr(ctx.bytes_type, Slot::New), Some(Builtin::BytesNew));
    assert_eq!(ctx.get_attr(ctx.bytes_type, Slot::Repr), Some(Builtin::BytesRepr));
    assert_eq!(ctx.get_attr(ctx.str_type, Slot::Repr), None);
    let sub = ctx.add_type(String::from("sub"), ctx.bytes_type);
    assert_eq!(ctx.get_attr(sub, Slot::Repr), Some(Builtin::BytesRepr));
}

#[test]
fn dispatch_through_attribute() {
    let mut ctx = Context::new();
    init(&mut ctx);
    let f = ctx.get_attr(ctx.bytes_type, Slot::Repr).unwrap();
    let r = call_builtin(&ctx, f, &vec![ctx.new_bytes(vec![0x7f])]).unwrap();
    assert_eq!(str_of(&r), "b'\\x7f'");
    let ctor = ctx.get_attr(ctx.bytes_type, Slot::New).unwrap();
    let args = vec![ctx.type_value(ctx.bytes_type), list_of(&ctx, &[5])];
    let v = call_builtin(&ctx, ctor, &args).unwrap();
    assert_eq!(*get_value(&v), vec![5u8]);
}

#[test]
fn later_attribute_overrides() {
    let mut ctx = Context::new();
    let sub = ctx.add_type(String::from("sub"), ctx.bytes_type);
    ctx.set_attr(ctx.bytes_type, Slot::Eq, Builtin::BytesEq);
    ctx.set_attr(sub, Slot::Eq, Builtin::BytesHash);
    assert_eq!(ctx.get_attr(sub, Slot::Eq), Some(Builtin::BytesHash));
    assert_eq!(ctx.get_attr(ctx.bytes_type, Slot::Eq), Some(Builtin::BytesEq));
    ctx.set_attr(ctx.bytes_type, Slot::Eq, Builtin::BytesRepr);
    assert_eq!(ctx.get_attr(ctx.bytes_type, Slot::Eq), Some(Builtin::BytesRepr));
}

#[test]
fn subclass_queries() {
    let ctx = Context::new();
    assert!(ctx.issubclass(ctx.bool_type, ctx.int_type));
    assert!(ctx.issubclass(ctx.bool_type, ctx.object_type));
    assert!(!ctx.issubclass(ctx.int_type, ctx.bool_type));
    assert!(ctx.issubclass(ctx.bytes_type, ctx.bytes_type));
    assert!(ctx.isinstance(&ctx.new_bool(true), ctx.int_type));
    assert!(!ctx.isinstance(&ctx.new_none(), ctx.bytes_type));
}

#[test]
fn int_narrowing() {
    assert_eq!(Int::from_i64(0).to_u8(), Some(0));
    assert_eq!(Int::from_i64(255).to_u8(), Some(255));
    assert_eq!(Int::from_i64(256).to_u8(), None);
    assert_eq!(Int::from_i64(-1).to_u8(), None);
    assert_eq!(Int::from_i64(i64::MIN).to_u8(), None);
    assert_eq!(Int::from_u64(u64::MAX).digits, vec![u32::MAX, u32::MAX]);
    assert_eq!(Int::from_u64(4294967296).digits, vec![0, 1]);
    assert_eq!(Int::from_u64(7).digits, vec![7]);
    assert!(Int::from_u64(0).digits.is_empty());
}
