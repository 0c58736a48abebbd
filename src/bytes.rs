use vstd::prelude::*;
use vstd::std_specs::hash::DefaultHasherAdditionalSpecFns;
use std::collections::hash_map::DefaultHasher;
use std::hash::Hasher;
use vstd::string::*;
use crate::args::{check_args, check_result};
use crate::bigint::Int;
use crate::object::{attr_in, Builtin, Context, ObjectKind, PyError, Slot, Value};

verus! {

/// The bytes held by a value, or nothing for a value of another kind.
pub open spec fn bytes_of(v: Value) -> Seq<u8> {
    match v.kind {
        ObjectKind::Bytes(d) => d@,
        _ => Seq::empty(),
    }
}

/// Equality of a byte sequence `a` with any value `b`: `b` is a byte
/// sequence too, with the same bytes in the same order.
pub open spec fn equals(ctx: &Context, a: Value, b: Value) -> bool {
    ctx.is_instance(b, ctx.bytes_type as nat) && bytes_of(a) == bytes_of(b)
}

/// The hash of a byte sequence: the default hasher's digest after one write
/// of exactly those bytes.
pub open spec fn hash_of(d: Seq<u8>) -> u64 {
    DefaultHasher::spec_finish(seq![d])
}

/// The lowercase hexadecimal digits.
pub open spec fn hex_digits() -> Seq<char> {
    seq!['0', '1', '2', '3', '4', '5', '6', '7', '8', '9', 'a', 'b', 'c', 'd', 'e', 'f']
}

/// The escape `\xHH` of one byte.
pub open spec fn escape(b: u8) -> Seq<char> {
    seq!['\\', 'x', hex_digits()[(b / 16) as int], hex_digits()[(b % 16) as int]]
}

/// The escapes of all bytes, in order, with no separator.
pub open spec fn escapes(d: Seq<u8>) -> Seq<char>
    decreases d.len(),
{
    if d.len() == 0 {
        Seq::empty()
    } else {
        escapes(d.drop_last()) + escape(d.last())
    }
}

/// The textual representation `b'...'` of a byte sequence.
pub open spec fn repr_of(d: Seq<u8>) -> Seq<char> {
    seq!['b', '\''] + escapes(d) + seq!['\'']
}

/// The byte that an element stands for, or the error it raises at `position`.
pub open spec fn element_byte(e: Value, position: nat) -> Result<u8, PyError> {
    match e.kind {
        ObjectKind::Integer(i) => if 0 <= i.value() <= 255 {
            Ok(i.value() as u8)
        } else {
            Err(PyError::ByteRange { position: position as usize })
        },
        ObjectKind::Bool(b) => Ok(if b {
            1u8
        } else {
            0u8
        }),
        _ => Err(PyError::NotInteger { found: e.typ }),
    }
}

/// The bytes of a sequence of elements, or the error of the first element
/// that is no integer or lies outside 0 to 255.
pub open spec fn bytes_from(elems: Seq<Value>) -> Result<Seq<u8>, PyError>
    decreases elems.len(),
{
    if elems.len() == 0 {
        Ok(Seq::empty())
    } else {
        match bytes_from(elems.drop_last()) {
            Ok(p) => match element_byte(elems.last(), (elems.len() - 1) as nat) {
                Ok(b) => Ok(p.push(b)),
                Err(e) => Err(e),
            },
            Err(e) => Err(e),
        }
    }
}

/// What construction yields from `(cls)` or `(cls, iterable)`.
pub open spec fn new_result(ctx: &Context, args: Seq<Value>, r: Result<Value, PyError>) -> bool {
    if !(1 <= args.len() <= 2) {
        r == Err::<Value, PyError>(PyError::Arity { min: 1, max: 2, got: args.len() as usize })
    } else {
        match args[0].kind {
            ObjectKind::Type(t) => if !ctx.is_subclass(t as nat, ctx.bytes_type as nat) {
                r == Err::<Value, PyError>(PyError::NotSubtype { class: t })
            } else if args.len() == 1 {
                r matches Ok(v) && v.typ == t && bytes_of(v) == Seq::<u8>::empty()
                    && v.kind is Bytes
            } else {
                match args[1].kind {
                    ObjectKind::List(items) => match bytes_from(items@) {
                        Ok(b) => r matches Ok(v) && v.typ == t && v.kind is Bytes && bytes_of(v)
                            == b,
                        Err(e) => r == Err::<Value, PyError>(e),
                    },
                    _ => r == Err::<Value, PyError>(PyError::NotIterable { found: args[1].typ }),
                }
            },
            _ => r == Err::<Value, PyError>(
                PyError::ArgType { position: 0, expected: ctx.type_type },
            ),
        }
    }
}

/// What a method taking a byte sequence and `n - 1` further arguments yields
/// on a call of the wrong shape; `None` when the call is well formed.
pub open spec fn shape_error(ctx: &Context, args: Seq<Value>, n: nat) -> Option<PyError> {
    if args.len() != n {
        Some(PyError::Arity { min: n as usize, max: n as usize, got: args.len() as usize })
    } else if !ctx.is_instance(args[0], ctx.bytes_type as nat) {
        Some(PyError::ArgType { position: 0, expected: ctx.bytes_type })
    } else {
        None
    }
}

/// What `equals` yields on `(a, b)`.
pub open spec fn eq_result(ctx: &Context, args: Seq<Value>, r: Result<Value, PyError>) -> bool {
    match shape_error(ctx, args, 2) {
        Some(e) => r == Err::<Value, PyError>(e),
        None => r matches Ok(v) && v.typ == ctx.bool_type && v.kind == ObjectKind::Bool(
            equals(ctx, args[0], args[1]),
        ),
    }
}

/// What `hash` yields on `(a)`.
pub open spec fn hash_result(ctx: &Context, args: Seq<Value>, r: Result<Value, PyError>) -> bool {
    match shape_error(ctx, args, 1) {
        Some(e) => r == Err::<Value, PyError>(e),
        None => r matches Ok(v) && v.typ == ctx.int_type && (v.kind matches ObjectKind::Integer(i)
            && i.value() == hash_of(bytes_of(args[0])) as int),
    }
}

/// What the textual representation yields on `(a)`.
pub open spec fn repr_result(ctx: &Context, args: Seq<Value>, r: Result<Value, PyError>) -> bool {
    match shape_error(ctx, args, 1) {
        Some(e) => r == Err::<Value, PyError>(e),
        None => r matches Ok(v) && v.typ == ctx.str_type && (v.kind matches ObjectKind::Str(s)
            && s@ == repr_of(bytes_of(args[0]))),
    }
}

/// The bytes held by a byte-sequence value.
pub fn get_value(obj: &Value) -> (r: &Vec<u8>)
    requires
        obj.kind is Bytes,
    ensures
        r@ == bytes_of(*obj),
{
    match &obj.kind {
        ObjectKind::Bytes(d) => d,
        _ => vstd::pervasive::unreached(),
    }
}

/// Validates a call that takes a byte sequence and `n - 1` further
/// arguments of any type.
fn check_shape(ctx: &Context, args: &Vec<Value>, n: usize) -> (r: Result<(), PyError>)
    requires
        ctx.wf(),
        ctx.values_wf(args@),
        1 <= n <= 2,
    ensures
        match shape_error(ctx, args@, n as nat) {
            Some(e) => r == Err::<(), PyError>(e),
            None => r is Ok,
        },
{
    let required: Vec<Option<usize>> = if n == 1 {
        vec![Some(ctx.bytes_type)]
    } else {
        vec![Some(ctx.bytes_type), None]
    };
    let optional: Vec<Option<usize>> = Vec::new();
    let r = check_args(ctx, args, &required, &optional);
    proof {
        assert(required@ + optional@ =~= required@);
        if args@.len() == n && r is Ok {
            assert(ctx.value_wf(args@[0]));
            assert(crate::args::slot_ok(ctx, args@[0], required@[0]));
        }
    }
    r
}

/// Whether two byte sequences hold the same bytes in the same order.
fn same_bytes(a: &Vec<u8>, b: &Vec<u8>) -> (r: bool)
    ensures
        r == (a@ == b@),
{
    if a.len() != b.len() {
        return false;
    }
    let mut i: usize = 0;
    while i < a.len()
        invariant
            a@.len() == b@.len(),
            i <= a@.len(),
            forall|j: int| 0 <= j < i ==> a@[j] == b@[j],
        decreases a@.len() - i,
    {
        if a[i] != b[i] {
            return false;
        }
        i = i + 1;
    }
    assert(a@ =~= b@);
    true
}

/// Equality `(a, b)`: whether `b` is a byte sequence with the same bytes as
/// the byte sequence `a`.
pub fn bytes_eq(ctx: &Context, args: &Vec<Value>) -> (r: Result<Value, PyError>)
    requires
        ctx.wf(),
        ctx.values_wf(args@),
    ensures
        eq_result(ctx, args@, r),
{
    match check_shape(ctx, args, 2) {
        Err(e) => {
            return Err(e);
        },
        Ok(_) => {},
    }
    let a = &args[0];
    let b = &args[1];
    proof {
        assert(ctx.value_wf(args@[0]));
        assert(ctx.value_wf(args@[1]));
    }
    let result = if ctx.isinstance(b, ctx.bytes_type) {
        same_bytes(get_value(a), get_value(b))
    } else {
        false
    };
    Ok(ctx.new_bool(result))
}

/// Hash `(a)`: the digest of the bytes of `a`, as an integer value.
pub fn bytes_hash(ctx: &Context, args: &Vec<Value>) -> (r: Result<Value, PyError>)
    requires
        ctx.wf(),
        ctx.values_wf(args@),
    ensures
        hash_result(ctx, args@, r),
{
    match check_shape(ctx, args, 1) {
        Err(e) => {
            return Err(e);
        },
        Ok(_) => {},
    }
    proof {
        assert(ctx.value_wf(args@[0]));
    }
    let data = get_value(&args[0]);
    let mut hasher = DefaultHasher::new();
    hasher.write(data.as_slice());
    let hash = hasher.finish();
    proof {
        assert(hasher@ =~= seq![data@]);
    }
    Ok(ctx.new_int(Int::from_u64(hash)))
}

/// The one-character text of a hexadecimal digit.
fn hex_digit(n: u8) -> (r: &'static str)
    requires
        n < 16,
    ensures
        r@ == seq![hex_digits()[n as int]],
{
    proof {
        reveal_strlit("0");
        reveal_strlit("1");
        reveal_strlit("2");
        reveal_strlit("3");
        reveal_strlit("4");
        reveal_strlit("5");
        reveal_strlit("6");
        reveal_strlit("7");
        reveal_strlit("8");
        reveal_strlit("9");
        reveal_strlit("a");
        reveal_strlit("b");
        reveal_strlit("c");
        reveal_strlit("d");
        reveal_strlit("e");
        reveal_strlit("f");
    }
    let r = match n {
        0 => "0",
        1 => "1",
        2 => "2",
        3 => "3",
        4 => "4",
        5 => "5",
        6 => "6",
        7 => "7",
        8 => "8",
        9 => "9",
        10 => "a",
        11 => "b",
        12 => "c",
        13 => "d",
        14 => "e",
        _ => "f",
    };
    assert(r@ =~= seq![hex_digits()[n as int]]);
    r
}

/// Textual representation `(a)`: `b'` then `\xHH` for each byte of `a`, in
/// lowercase hexadecimal, then `'`.
pub fn bytes_repr(ctx: &Context, args: &Vec<Value>) -> (r: Result<Value, PyError>)
    requires
        ctx.wf(),
        ctx.values_wf(args@),
    ensures
        repr_result(ctx, args@, r),
{
    match check_shape(ctx, args, 1) {
        Err(e) => {
            return Err(e);
        },
        Ok(_) => {},
    }
    proof {
        assert(ctx.value_wf(args@[0]));
        reveal_strlit("b'");
        reveal_strlit("\\x");
        reveal_strlit("'");
    }
    let data = get_value(&args[0]);
    let mut text = String::from_str("b'");
    let mut i: usize = 0;
    assert(data@.subrange(0, 0) =~= Seq::<u8>::empty());
    while i < data.len()
        invariant
            i <= data@.len(),
            text@ == seq!['b', '\''] + escapes(data@.subrange(0, i as int)),
        decreases data@.len() - i,
    {
        let b = data[i];
        text.append("\\x");
        text.append(hex_digit(b / 16));
        text.append(hex_digit(b % 16));
        proof {
            let pre = data@.subrange(0, i + 1);
            assert(pre.drop_last() =~= data@.subrange(0, i as int));
            assert(pre.last() == b);
            assert(escapes(pre) == escapes(pre.drop_last()) + escape(b));
            reveal_strlit("\\x");
            assert(escape(b) =~= seq!['\\', 'x'] + seq![hex_digits()[(b / 16) as int]] + seq![
                hex_digits()[(b % 16) as int],
            ]);
            assert(text@ =~= seq!['b', '\''] + escapes(pre));
        }
        i = i + 1;
    }
    text.append("'");
    assert(data@.subrange(0, data@.len() as int) =~= data@);
    assert(text@ =~= repr_of(data@));
    Ok(ctx.new_str(text))
}

/// An error met in a prefix of the elements is the error of them all.
proof fn lemma_error_persists(s: Seq<Value>, k: int)
    requires
        0 <= k <= s.len(),
        bytes_from(s.subrange(0, k)) is Err,
    ensures
        bytes_from(s) == bytes_from(s.subrange(0, k)),
    decreases s.len(),
{
    if k == s.len() {
        assert(s.subrange(0, k) =~= s);
    } else {
        assert(s.drop_last().subrange(0, k) =~= s.subrange(0, k));
        lemma_error_persists(s.drop_last(), k);
    }
}

/// Converts the elements of an iterable to bytes, each an integer in 0 to
/// 255 (a boolean counts as 0 or 1).
fn bytes_from_items(items: &Vec<Value>) -> (r: Result<Vec<u8>, PyError>)
    ensures
        match bytes_from(items@) {
            Ok(b) => r matches Ok(d) && d@ == b,
            Err(e) => r == Err::<Vec<u8>, PyError>(e),
        },
{
    let mut data: Vec<u8> = Vec::new();
    let mut i: usize = 0;
    assert(items@.subrange(0, 0) =~= Seq::<Value>::empty());
    while i < items.len()
        invariant
            i <= items@.len(),
            bytes_from(items@.subrange(0, i as int)) == Ok::<Seq<u8>, PyError>(data@),
        decreases items@.len() - i,
    {
        let ghost pre = items@.subrange(0, i + 1);
        proof {
            assert(pre.drop_last() =~= items@.subrange(0, i as int));
            assert(pre.last() == items@[i as int]);
        }
        let byte: u8 = match &items[i].kind {
            ObjectKind::Integer(n) => match n.to_u8() {
                Some(b) => b,
                None => {
                    proof {
                        lemma_error_persists(items@, i + 1);
                    }
                    return Err(PyError::ByteRange { position: i });
                },
            },
            ObjectKind::Bool(b) => if *b {
                1
            } else {
                0
            },
            _ => {
                proof {
                    lemma_error_persists(items@, i + 1);
                }
                return Err(PyError::NotInteger { found: items[i].typ });
            },
        };
        data.push(byte);
        i = i + 1;
    }
    assert(items@.subrange(0, items@.len() as int) =~= items@);
    Ok(data)
}

/// Construction `(cls)` or `(cls, iterable)`: a new byte sequence of type
/// `cls`, empty or holding the iterable's elements as bytes. `cls` must be a
/// type in the byte-sequence hierarchy.
pub fn bytes_new(ctx: &Context, args: &Vec<Value>) -> (r: Result<Value, PyError>)
    requires
        ctx.wf(),
        ctx.values_wf(args@),
    ensures
        new_result(ctx, args@, r),
{
    let required: Vec<Option<usize>> = vec![None];
    let optional: Vec<Option<usize>> = vec![None];
    match check_args(ctx, args, &required, &optional) {
        Err(e) => {
            return Err(e);
        },
        Ok(_) => {},
    }
    proof {
        assert(ctx.value_wf(args@[0]));
    }
    let t: usize = match &args[0].kind {
        ObjectKind::Type(t) => *t,
        _ => {
            return Err(PyError::ArgType { position: 0, expected: ctx.type_type });
        },
    };
    if !ctx.issubclass(t, ctx.bytes_type) {
        return Err(PyError::NotSubtype { class: t });
    }
    let data: Vec<u8> = if args.len() == 2 {
        match &args[1].kind {
            ObjectKind::List(items) => match bytes_from_items(items) {
                Ok(d) => d,
                Err(e) => {
                    return Err(e);
                },
            },
            _ => {
                return Err(PyError::NotIterable { found: args[1].typ });
            },
        }
    } else {
        Vec::new()
    };
    Ok(Value { kind: ObjectKind::Bytes(data), typ: t })
}

/// Installs equality, hash, construction and textual representation on the
/// byte-sequence type; no other type changes.
pub fn init(ctx: &mut Context)
    requires
        old(ctx).wf(),
    ensures
        final(ctx).wf(),
        final(ctx).same_builtins(old(ctx)),
        final(ctx).types@.len() == old(ctx).types@.len(),
        forall|i: int|
            0 <= i < old(ctx).types@.len() && i != old(ctx).bytes_type
                ==> #[trigger] final(ctx).types@[i] == old(ctx).types@[i],
        final(ctx).types@[old(ctx).bytes_type as int].name
            == old(ctx).types@[old(ctx).bytes_type as int].name,
        final(ctx).types@[old(ctx).bytes_type as int].base
            == old(ctx).types@[old(ctx).bytes_type as int].base,
        final(ctx).lookup(old(ctx).bytes_type as nat, Slot::Eq) == Some(Builtin::BytesEq),
        final(ctx).lookup(old(ctx).bytes_type as nat, Slot::Hash) == Some(Builtin::BytesHash),
        final(ctx).lookup(old(ctx).bytes_type as nat, Slot::New) == Some(Builtin::BytesNew),
        final(ctx).lookup(old(ctx).bytes_type as nat, Slot::Repr) == Some(Builtin::BytesRepr),
{
    let t = ctx.bytes_type;
    ctx.set_attr(t, Slot::Eq, Builtin::BytesEq);
    ctx.set_attr(t, Slot::Hash, Builtin::BytesHash);
    ctx.set_attr(t, Slot::New, Builtin::BytesNew);
    ctx.set_attr(t, Slot::Repr, Builtin::BytesRepr);
    proof {
        let a = ctx.types@[t as int].attrs@;
        let a3 = a.drop_last();
        let a2 = a3.drop_last();
        let a1 = a2.drop_last();
        assert(a.last() == (Slot::Repr, Builtin::BytesRepr));
        assert(a3.last() == (Slot::New, Builtin::BytesNew));
        assert(a2.last() == (Slot::Hash, Builtin::BytesHash));
        assert(a1.last() == (Slot::Eq, Builtin::BytesEq));
        assert(attr_in(a, Slot::Repr) == Some(Builtin::BytesRepr));
        assert(attr_in(a, Slot::New) == attr_in(a3, Slot::New));
        assert(attr_in(a, Slot::Hash) == attr_in(a3, Slot::Hash));
        assert(attr_in(a3, Slot::Hash) == attr_in(a2, Slot::Hash));
        assert(attr_in(a, Slot::Eq) == attr_in(a3, Slot::Eq));
        assert(attr_in(a3, Slot::Eq) == attr_in(a2, Slot::Eq));
        assert(attr_in(a2, Slot::Eq) == attr_in(a1, Slot::Eq));
    }
}

/// Invokes a native function on a call's arguments.
pub fn call_builtin(ctx: &Context, f: Builtin, args: &Vec<Value>) -> (r: Result<Value, PyError>)
    requires
        ctx.wf(),
        ctx.values_wf(args@),
    ensures
        match f {
            Builtin::BytesEq => eq_result(ctx, args@, r),
            Builtin::BytesHash => hash_result(ctx, args@, r),
            Builtin::BytesNew => new_result(ctx, args@, r),
            Builtin::BytesRepr => repr_result(ctx, args@, r),
        },
{
    match f {
        Builtin::BytesEq => bytes_eq(ctx, args),
        Builtin::BytesHash => bytes_hash(ctx, args),
        Builtin::BytesNew => bytes_new(ctx, args),
        Builtin::BytesRepr => bytes_repr(ctx, args),
    }
}

/// Byte-sequence equality goes by content alone: between byte sequences it
/// holds exactly when they hold the same bytes in the same order, so it is
/// reflexive and symmetric; against a value outside the byte-sequence
/// hierarchy it never holds.
pub proof fn lemma_equality_by_content(ctx: &Context, x: Value, y: Value, z: Value)
    requires
        ctx.is_instance(x, ctx.bytes_type as nat),
        ctx.is_instance(y, ctx.bytes_type as nat),
        !ctx.is_instance(z, ctx.bytes_type as nat),
    ensures
        equals(ctx, x, y) == (bytes_of(x) == bytes_of(y)),
        equals(ctx, x, x),
        equals(ctx, x, y) == equals(ctx, y, x),
        !equals(ctx, x, z),
{
}

/// Byte sequences that compare equal hash alike: where equality of `x` and
/// `y` yields true, hashing each succeeds with the same integer.
pub proof fn lemma_hash_agrees_with_equality(
    ctx: &Context,
    x: Value,
    y: Value,
    e: Result<Value, PyError>,
    hx: Result<Value, PyError>,
    hy: Result<Value, PyError>,
)
    requires
        eq_result(ctx, seq![x, y], e),
        e matches Ok(v) && v.kind == ObjectKind::Bool(true),
        hash_result(ctx, seq![x], hx),
        hash_result(ctx, seq![y], hy),
    ensures
        match (hx, hy) {
            (Ok(a), Ok(b)) => match (a.kind, b.kind) {
                (ObjectKind::Integer(i), ObjectKind::Integer(j)) => i.value() == j.value(),
                _ => false,
            },
            _ => false,
        },
{
    assert(seq![x, y][0] == x);
    assert(seq![x, y][1] == y);
    assert(seq![x][0] == x);
    assert(seq![y][0] == y);
}

} // verus!
