use vstd::prelude::*;
use vstd::string::*;
use crate::bigint::Int;

verus! {

/// The native functions that a type's attribute table can hold.
#[derive(PartialEq, Eq, Structural, Clone, Copy, Debug)]
pub enum Builtin {
    BytesEq,
    BytesHash,
    BytesNew,
    BytesRepr,
}

/// The special-method names under which attributes are stored.
#[derive(PartialEq, Eq, Structural, Clone, Copy, Debug)]
pub enum Slot {
    Eq,
    Hash,
    New,
    Repr,
}

/// A registered type: its name, its single base (none for the root type), and
/// its attribute table, where a later entry for a slot overrides an earlier one.
#[derive(Debug)]
pub struct TypeObject {
    pub name: String,
    pub base: Option<usize>,
    pub attrs: Vec<(Slot, Builtin)>,
}

/// The payload of a runtime value.
#[derive(Debug)]
pub enum ObjectKind {
    NoneValue,
    Bool(bool),
    Integer(Int),
    Str(String),
    Bytes(Vec<u8>),
    List(Vec<Value>),
    Type(usize),
}

/// A runtime value: a payload and the index of its type in the registry.
#[derive(Debug)]
pub struct Value {
    pub kind: ObjectKind,
    pub typ: usize,
}

/// A failure reported to the caller of a builtin.
#[derive(PartialEq, Eq, Structural, Clone, Copy, Debug)]
pub enum PyError {
    /// The call had `got` positional arguments, outside `min ..= max`.
    Arity { min: usize, max: usize, got: usize },
    /// The argument at `position` is not an instance of type `expected`.
    ArgType { position: usize, expected: usize },
    /// A constructor was handed a class outside the hierarchy of its type.
    NotSubtype { class: usize },
    /// A value of type `found` cannot be iterated.
    NotIterable { found: usize },
    /// A value of type `found` cannot be read as an integer.
    NotInteger { found: usize },
    /// The element at `position` is outside the byte range 0 to 255.
    ByteRange { position: usize },
}

impl PyError {
    /// Whether the error is of the type-error class.
    pub fn is_type_error(&self) -> (r: bool)
        ensures
            r == !(*self is ByteRange),
    {
        match self {
            PyError::ByteRange { .. } => false,
            _ => true,
        }
    }

    /// Whether the error is of the value-error class.
    pub fn is_value_error(&self) -> (r: bool)
        ensures
            r == (*self is ByteRange),
    {
        match self {
            PyError::ByteRange { .. } => true,
            _ => false,
        }
    }
}

/// The attribute stored under `s` in a table: its last entry for `s`.
pub open spec fn attr_in(attrs: Seq<(Slot, Builtin)>, s: Slot) -> Option<Builtin>
    decreases attrs.len(),
{
    if attrs.len() == 0 {
        None
    } else if attrs.last().0 == s {
        Some(attrs.last().1)
    } else {
        attr_in(attrs.drop_last(), s)
    }
}

/// The registry of types, with the indices of the builtin ones.
pub struct Context {
    pub types: Vec<TypeObject>,
    pub object_type: usize,
    pub type_type: usize,
    pub none_type: usize,
    pub int_type: usize,
    pub bool_type: usize,
    pub str_type: usize,
    pub bytes_type: usize,
    pub list_type: usize,
}

impl Context {
    /// The registry is well formed: every base was registered before the type
    /// that names it, so every ancestor chain ends at a root.
    pub open spec fn wf(&self) -> bool {
        &&& forall|i: int| #![trigger self.types@[i]]
            0 <= i < self.types@.len() ==> match self.types@[i].base {
                Some(p) => p < i,
                None => true,
            }
        &&& self.object_type < self.types@.len()
        &&& self.type_type < self.types@.len()
        &&& self.none_type < self.types@.len()
        &&& self.int_type < self.types@.len()
        &&& self.bool_type < self.types@.len()
        &&& self.str_type < self.types@.len()
        &&& self.bytes_type < self.types@.len()
        &&& self.list_type < self.types@.len()
    }

    /// `a` lies on the ancestor chain of `c`, `c` itself included.
    pub open spec fn is_subclass(&self, c: nat, a: nat) -> bool
        decreases c,
    {
        if c == a {
            true
        } else if c < self.types@.len() {
            match self.types@[c as int].base {
                Some(p) => if (p as nat) < c {
                    self.is_subclass(p as nat, a)
                } else {
                    false
                },
                None => false,
            }
        } else {
            false
        }
    }

    /// The value's type is a subclass of `t`.
    pub open spec fn is_instance(&self, v: Value, t: nat) -> bool {
        self.is_subclass(v.typ as nat, t)
    }

    /// The attribute found for `s` on `c` or, failing that, on its nearest
    /// ancestor that has one.
    pub open spec fn lookup(&self, c: nat, s: Slot) -> Option<Builtin>
        decreases c,
    {
        if c < self.types@.len() {
            match attr_in(self.types@[c as int].attrs@, s) {
                Some(f) => Some(f),
                None => match self.types@[c as int].base {
                    Some(p) => if (p as nat) < c {
                        self.lookup(p as nat, s)
                    } else {
                        None
                    },
                    None => None,
                },
            }
        } else {
            None
        }
    }

    /// A value agrees with the registry: its type is registered, a type
    /// object names a registered type, and the payload of an instance of the
    /// byte-sequence type is a byte sequence.
    pub open spec fn value_wf(&self, v: Value) -> bool {
        &&& v.typ < self.types@.len()
        &&& (v.kind matches ObjectKind::Type(t) ==> t < self.types@.len())
        &&& (self.is_instance(v, self.bytes_type as nat) ==> v.kind is Bytes)
    }

    /// A registry of the builtin types: the root `object`, and `type`,
    /// `NoneType`, `int`, `bool` (under `int`), `str`, `bytes` and `list`,
    /// each with an empty attribute table.
    pub fn new() -> (r: Context)
        ensures
            r.wf(),
            r.types@.len() == 8,
            r.object_type == 0,
            r.type_type == 1,
            r.none_type == 2,
            r.int_type == 3,
            r.bool_type == 4,
            r.str_type == 5,
            r.bytes_type == 6,
            r.list_type == 7,
            r.types@[0].base is None,
            r.types@[4].base == Some(3usize),
            forall|i: int| 0 <= i < 8 ==> (#[trigger] r.types@[i]).attrs@.len() == 0,
            forall|i: int|
                0 < i < 8 && i != 4 ==> (#[trigger] r.types@[i]).base == Some(0usize),
    {
        let mut types: Vec<TypeObject> = Vec::new();
        types.push(TypeObject { name: String::from_str("object"), base: None, attrs: Vec::new() });
        types.push(TypeObject { name: String::from_str("type"), base: Some(0), attrs: Vec::new() });
        types.push(
            TypeObject { name: String::from_str("NoneType"), base: Some(0), attrs: Vec::new() },
        );
        types.push(TypeObject { name: String::from_str("int"), base: Some(0), attrs: Vec::new() });
        types.push(TypeObject { name: String::from_str("bool"), base: Some(3), attrs: Vec::new() });
        types.push(TypeObject { name: String::from_str("str"), base: Some(0), attrs: Vec::new() });
        types.push(TypeObject { name: String::from_str("bytes"), base: Some(0), attrs: Vec::new() });
        types.push(TypeObject { name: String::from_str("list"), base: Some(0), attrs: Vec::new() });
        Context {
            types,
            object_type: 0,
            type_type: 1,
            none_type: 2,
            int_type: 3,
            bool_type: 4,
            str_type: 5,
            bytes_type: 6,
            list_type: 7,
        }
    }

    /// Registers a new type named `name` under `base`, with an empty
    /// attribute table, and returns its index. Existing entries are kept.
    pub fn add_type(&mut self, name: String, base: usize) -> (r: usize)
        requires
            old(self).wf(),
            base < old(self).types@.len(),
            old(self).types@.len() < usize::MAX,
        ensures
            final(self).wf(),
            r == old(self).types@.len(),
            final(self).types@.len() == r + 1,
            final(self).types@.subrange(0, r as int) == old(self).types@,
            final(self).types@[r as int].name@ == name@,
            final(self).types@[r as int].base == Some(base),
            final(self).types@[r as int].attrs@.len() == 0,
            final(self).same_builtins(old(self)),
    {
        let r = self.types.len();
        self.types.push(TypeObject { name, base: Some(base), attrs: Vec::new() });
        assert(self.types@.subrange(0, r as int) =~= old(self).types@);
        r
    }

    /// Both registries give the builtin types the same indices.
    pub open spec fn same_builtins(&self, other: &Context) -> bool {
        &&& self.object_type == other.object_type
        &&& self.type_type == other.type_type
        &&& self.none_type == other.none_type
        &&& self.int_type == other.int_type
        &&& self.bool_type == other.bool_type
        &&& self.str_type == other.str_type
        &&& self.bytes_type == other.bytes_type
        &&& self.list_type == other.list_type
    }

    /// Stores `f` under `s` in the attribute table of type `t`; no other
    /// table, name or base changes.
    pub fn set_attr(&mut self, t: usize, s: Slot, f: Builtin)
        requires
            old(self).wf(),
            t < old(self).types@.len(),
        ensures
            final(self).wf(),
            final(self).same_builtins(old(self)),
            final(self).types@.len() == old(self).types@.len(),
            forall|i: int|
                0 <= i < old(self).types@.len() && i != t ==> #[trigger] final(self).types@[i]
                    == old(self).types@[i],
            final(self).types@[t as int].name == old(self).types@[t as int].name,
            final(self).types@[t as int].base == old(self).types@[t as int].base,
            final(self).types@[t as int].attrs@ == old(self).types@[t as int].attrs@.push((s, f)),
    {
        let mut obj = self.types.remove(t);
        obj.attrs.push((s, f));
        self.types.insert(t, obj);
        assert forall|i: int| 0 <= i < self.types@.len() implies match #[trigger] self.types@[i].base {
            Some(p) => p < i,
            None => true,
        } by {
            if i != t {
                assert(self.types@[i] == old(self).types@[i]);
            }
        }
    }

    /// Resolves the attribute under `s` on type `c`, walking its ancestors.
    pub fn get_attr(&self, c: usize, s: Slot) -> (r: Option<Builtin>)
        requires
            self.wf(),
            c < self.types@.len(),
        ensures
            r == self.lookup(c as nat, s),
    {
        let mut cur: usize = c;
        loop
            invariant
                self.wf(),
                cur < self.types@.len(),
                self.lookup(c as nat, s) == self.lookup(cur as nat, s),
            decreases cur,
        {
            let attrs = &self.types[cur].attrs;
            let mut j: usize = attrs.len();
            assert(attrs@.subrange(0, j as int) =~= attrs@);
            while j > 0
                invariant
                    self.wf(),
                    cur < self.types@.len(),
                    self.lookup(c as nat, s) == self.lookup(cur as nat, s),
                    j <= attrs@.len(),
                    attrs@ == self.types@[cur as int].attrs@,
                    attr_in(attrs@, s) == attr_in(attrs@.subrange(0, j as int), s),
                decreases j,
            {
                let ghost pre = attrs@.subrange(0, j as int);
                assert(pre.drop_last() =~= attrs@.subrange(0, j - 1));
                if attrs[j - 1].0 == s {
                    return Some(attrs[j - 1].1);
                }
                j = j - 1;
            }
            assert(attrs@.subrange(0, 0) =~= Seq::<(Slot, Builtin)>::empty());
            match self.types[cur].base {
                Some(p) => {
                    cur = p;
                },
                None => {
                    return None;
                },
            }
        }
    }

    /// A boolean value.
    pub fn new_bool(&self, b: bool) -> (r: Value)
        ensures
            r.kind == ObjectKind::Bool(b),
            r.typ == self.bool_type,
    {
        Value { kind: ObjectKind::Bool(b), typ: self.bool_type }
    }

    /// An integer value.
    pub fn new_int(&self, i: Int) -> (r: Value)
        ensures
            r.kind == ObjectKind::Integer(i),
            r.typ == self.int_type,
    {
        Value { kind: ObjectKind::Integer(i), typ: self.int_type }
    }

    /// A string value.
    pub fn new_str(&self, s: String) -> (r: Value)
        ensures
            r.kind == ObjectKind::Str(s),
            r.typ == self.str_type,
    {
        Value { kind: ObjectKind::Str(s), typ: self.str_type }
    }

    /// A byte-sequence value of the base byte-sequence type.
    pub fn new_bytes(&self, data: Vec<u8>) -> (r: Value)
        ensures
            r.kind == ObjectKind::Bytes(data),
            r.typ == self.bytes_type,
    {
        Value { kind: ObjectKind::Bytes(data), typ: self.bytes_type }
    }

    /// A list value.
    pub fn new_list(&self, items: Vec<Value>) -> (r: Value)
        ensures
            r.kind == ObjectKind::List(items),
            r.typ == self.list_type,
    {
        Value { kind: ObjectKind::List(items), typ: self.list_type }
    }

    /// The value that stands for type `t` itself.
    pub fn type_value(&self, t: usize) -> (r: Value)
        ensures
            r.kind == ObjectKind::Type(t),
            r.typ == self.type_type,
    {
        Value { kind: ObjectKind::Type(t), typ: self.type_type }
    }

    /// The absent value.
    pub fn new_none(&self) -> (r: Value)
        ensures
            r.kind == ObjectKind::NoneValue,
            r.typ == self.none_type,
    {
        Value { kind: ObjectKind::NoneValue, typ: self.none_type }
    }

    /// Every value of a sequence agrees with the registry.
    pub open spec fn values_wf(&self, vs: Seq<Value>) -> bool {
        forall|i: int| 0 <= i < vs.len() ==> self.value_wf(#[trigger] vs[i])
    }

    /// Whether type `c` is a subclass of type `a`.
    pub fn issubclass(&self, c: usize, a: usize) -> (r: bool)
        requires
            self.wf(),
            c < self.types@.len(),
        ensures
            r == self.is_subclass(c as nat, a as nat),
    {
        let mut cur: usize = c;
        loop
            invariant
                self.wf(),
                cur < self.types@.len(),
                self.is_subclass(c as nat, a as nat) == self.is_subclass(cur as nat, a as nat),
            decreases cur,
        {
            if cur == a {
                return true;
            }
            match self.types[cur].base {
                Some(p) => {
                    cur = p;
                },
                None => {
                    return false;
                },
            }
        }
    }

    /// Whether `v` is an instance of type `t`.
    pub fn isinstance(&self, v: &Value, t: usize) -> (r: bool)
        requires
            self.wf(),
            v.typ < self.types@.len(),
        ensures
            r == self.is_instance(*v, t as nat),
    {
        self.issubclass(v.typ, t)
    }
}

} // verus!
