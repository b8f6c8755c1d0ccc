//! Runtime values.
//!
//! A value on the machine's stack is either a scalar, a structure, a
//! fixed-length list, or an iterator over materialized records (the bound
//! form of a query).  Structures and lists hold their members as a linked
//! sequence so that values may nest.

use crate::types::{Literal, Ty, TypeRegistry};
use vstd::prelude::*;

verus! {

/// An upper bound on how deeply a type's default value nests: scalars do not
/// nest, and a structure may only hold fields of structures registered
/// before it.
pub open spec fn spec_ty_height(ty: Ty) -> nat {
    match ty {
        Ty::StructTy(sid) => (sid + 1) as nat,
        _ => 0,
    }
}

/// A structure type must be registered for a default instance to exist.
pub open spec fn spec_ty_known(ty: Ty, types: TypeRegistry) -> bool {
    match ty {
        Ty::StructTy(sid) => sid < types.structs@.len(),
        _ => true,
    }
}

/// A runtime value.
#[derive(Debug, PartialEq, Eq)]
pub enum Value {
    I32(i32),
    Text(String),
    StructVal(Box<Fields>),
    ListVal(Box<Fields>),
    /// Materialized records of a bound query together with the cursor of the
    /// next record to yield.
    IterVal(Box<Fields>, usize),
}

/// The members of a structure, list or iterator value, in order.
#[derive(Debug, PartialEq, Eq)]
pub enum Fields {
    Nil,
    Cons(Value, Box<Fields>),
}

/// The members of `f` as a sequence.
pub open spec fn fields_seq(f: Fields) -> Seq<Value>
    decreases f,
{
    match f {
        Fields::Nil => Seq::empty(),
        Fields::Cons(v, rest) => seq![v] + fields_seq(*rest),
    }
}

impl View for Fields {
    type V = Seq<Value>;

    open spec fn view(&self) -> Seq<Value> {
        fields_seq(*self)
    }
}

impl Fields {
    /// The member at position `i`, if there is one.
    pub fn try_get(&self, i: usize) -> (r: Option<&Value>)
        ensures
            r matches Some(v) ==> i < self@.len() && *v == self@[i as int],
            r is None <==> i >= self@.len(),
        decreases *self,
    {
        match self {
            Fields::Nil => None,
            Fields::Cons(v, rest) => {
                if i == 0 {
                    Some(v)
                } else {
                    rest.try_get(i - 1)
                }
            },
        }
    }

    /// A copy of the members with position `i` replaced by `v`, or `None` if
    /// there is no such position.
    pub fn try_update(&self, i: usize, v: Value) -> (r: Option<Fields>)
        ensures
            r matches Some(f) ==> i < self@.len() && f@ == self@.update(i as int, v),
            r is None <==> i >= self@.len(),
        decreases *self,
    {
        match self {
            Fields::Nil => None,
            Fields::Cons(head, rest) => {
                if i == 0 {
                    let r = Fields::Cons(v, Box::new(rest.duplicate()));
                    proof {
                        assert(r@ =~= self@.update(0, r@[0]));
                    }
                    Some(r)
                } else {
                    match rest.try_update(i - 1, v) {
                        Some(f) => {
                            let r = Fields::Cons(head.duplicate(), Box::new(f));
                            proof {
                                assert(r@ =~= self@.update(i as int, v));
                            }
                            Some(r)
                        },
                        None => None,
                    }
                }
            },
        }
    }

    /// An exact copy.
    pub fn duplicate(&self) -> (r: Fields)
        ensures
            r == *self,
        decreases *self,
    {
        match self {
            Fields::Nil => Fields::Nil,
            Fields::Cons(v, rest) => Fields::Cons(v.duplicate(), Box::new(rest.duplicate())),
        }
    }

    /// The members gathered into a vector.
    pub fn to_vec(&self) -> (r: Vec<Value>)
        ensures
            r@ == self@,
        decreases *self,
    {
        let mut out: Vec<Value> = Vec::new();
        let mut cur: &Fields = self;
        loop
            invariant
                out@ + cur@ == self@,
            ensures
                out@ == self@,
            decreases *cur,
        {
            match cur {
                Fields::Nil => {
                    proof {
                        assert(out@ =~= self@);
                    }
                    break ;
                },
                Fields::Cons(v, rest) => {
                    out.push(v.duplicate());
                    proof {
                        assert(out@ + rest@ =~= self@);
                    }
                    cur = rest;
                },
            }
        }
        out
    }

    /// The members of `items`, in order, as a linked sequence.
    pub fn from_vec(items: &Vec<Value>) -> (r: Fields)
        ensures
            r@ == items@,
    {
        Fields::from_vec_tail(items, 0)
    }

    fn from_vec_tail(items: &Vec<Value>, i: usize) -> (r: Fields)
        requires
            i <= items@.len(),
        ensures
            r@ == items@.subrange(i as int, items@.len() as int),
        decreases items@.len() - i,
    {
        if i == items.len() {
            let r = Fields::Nil;
            proof {
                assert(r@ =~= items@.subrange(i as int, items@.len() as int));
            }
            r
        } else {
            let rest = Fields::from_vec_tail(items, i + 1);
            let r = Fields::Cons(items[i].duplicate(), Box::new(rest));
            proof {
                assert(r@ =~= items@.subrange(i as int, items@.len() as int));
            }
            r
        }
    }
}

impl Value {
    /// An exact copy.
    pub fn duplicate(&self) -> (r: Value)
        ensures
            r == *self,
        decreases *self,
    {
        match self {
            Value::I32(x) => Value::I32(*x),
            Value::Text(s) => Value::Text(s.clone()),
            Value::StructVal(f) => Value::StructVal(Box::new(f.duplicate())),
            Value::ListVal(f) => Value::ListVal(Box::new(f.duplicate())),
            Value::IterVal(f, c) => Value::IterVal(Box::new(f.duplicate()), *c),
        }
    }

    /// The members of a composite value; `None` for a scalar.
    pub fn members(&self) -> (r: Option<&Fields>)
        ensures
            r == self.spec_members(),
    {
        match self {
            Value::StructVal(f) => Some(f),
            Value::ListVal(f) => Some(f),
            Value::IterVal(f, _) => Some(f),
            _ => None,
        }
    }

    pub open spec fn spec_members(&self) -> Option<&Fields> {
        match self {
            Value::StructVal(f) => Some(&**f),
            Value::ListVal(f) => Some(&**f),
            Value::IterVal(f, _) => Some(&**f),
            Value::I32(_) => None,
            Value::Text(_) => None,
        }
    }

    /// The value of a literal.
    pub fn of_literal(lit: &Literal) -> (r: Value)
        ensures
            r == lit.spec_value(),
    {
        match lit {
            Literal::I32(x) => Value::I32(*x),
            Literal::Text(s) => Value::Text(s.clone()),
        }
    }
}

/// `v` is the default instance of `ty`: zero, the empty text, an empty
/// list, an exhausted iterator, or a structure each of whose fields is in
/// turn its type's default.  (The recursion is guarded on the height bound
/// that well-formed registries always satisfy.)
pub open spec fn spec_is_default(types: TypeRegistry, ty: Ty, v: Value) -> bool
    decreases spec_ty_height(ty),
{
    match ty {
        Ty::I32 => v == Value::I32(0),
        Ty::Text => v matches Value::Text(s) && s@ == Seq::<char>::empty(),
        Ty::ListTy => v matches Value::ListVal(f) && f@.len() == 0,
        Ty::QueryTy => v matches Value::IterVal(f, c) && f@.len() == 0 && c == 0,
        Ty::StructTy(sid) => {
            &&& sid < types.structs@.len()
            &&& (v matches Value::StructVal(f) && {
                let fields = types.structs@[sid as int].fields@;
                &&& f@.len() == fields.len()
                &&& (forall|j: int|
                    0 <= j < fields.len() ==> (if spec_ty_height(#[trigger] fields[j])
                        < spec_ty_height(ty) {
                        spec_is_default(types, fields[j], f@[j])
                    } else {
                        false
                    }))
            })
        },
    }
}

/// The default instance of a type: zero, the empty text, an empty list, an
/// exhausted iterator, or a structure whose fields are in turn defaults,
/// one per declared field.
pub fn default_value(types: &TypeRegistry, ty: Ty) -> (r: Value)
    requires
        types.wf(),
        spec_ty_known(ty, *types),
    ensures
        spec_is_default(*types, ty, r),
        ty matches Ty::StructTy(sid) ==> (r matches Value::StructVal(f) && f@.len()
            == types.structs@[sid as int].fields@.len()),
    decreases spec_ty_height(ty),
{
    match ty {
        Ty::I32 => {
            let r = Value::I32(0);
            proof {
                assert(spec_is_default(*types, ty, r));
            }
            r
        },
        Ty::Text => {
            let r = Value::Text(String::new());
            proof {
                assert(spec_is_default(*types, ty, r));
            }
            r
        },
        Ty::ListTy => {
            let r = Value::ListVal(Box::new(Fields::Nil));
            proof {
                assert(spec_is_default(*types, ty, r));
            }
            r
        },
        Ty::QueryTy => {
            let r = Value::IterVal(Box::new(Fields::Nil), 0);
            proof {
                assert(spec_is_default(*types, ty, r));
            }
            r
        },
        Ty::StructTy(sid) => {
            let def = &types.structs[sid];
            let n = def.fields.len();
            let mut members: Vec<Value> = Vec::new();
            let mut j: usize = 0;
            while j < n
                invariant
                    types.wf(),
                    ty == Ty::StructTy(sid),
                    sid < types.structs@.len(),
                    *def == types.structs@[sid as int],
                    n == def.fields@.len(),
                    j <= n,
                    members@.len() == j,
                    forall|x: int|
                        0 <= x < j ==> spec_is_default(
                            *types,
                            #[trigger] def.fields@[x],
                            members@[x],
                        ),
                decreases n - j,
            {
                let fty = def.fields[j];
                proof {
                    assert(types.struct_refs_below(sid as int, sid as int));
                    assert(match def.fields@[j as int] {
                        Ty::StructTy(s) => s < sid,
                        _ => true,
                    });
                    assert(spec_ty_height(fty) < spec_ty_height(ty));
                    assert(spec_ty_known(fty, *types));
                }
                members.push(default_value(types, fty));
                j += 1;
            }
            let fields = Fields::from_vec(&members);
            let r = Value::StructVal(Box::new(fields));
            proof {
                assert(types.struct_refs_below(sid as int, sid as int));
                assert forall|j: int| 0 <= j < def.fields@.len() implies (spec_ty_height(
                    #[trigger] def.fields@[j],
                ) < spec_ty_height(ty) && spec_is_default(*types, def.fields@[j], members@[j])) by {
                    assert(match def.fields@[j] {
                        Ty::StructTy(s2) => s2 < sid,
                        _ => true,
                    });
                }
                assert(spec_is_default(*types, ty, r));
            }
            r
        },
    }
}

impl Literal {
    pub open spec fn spec_value(&self) -> Value {
        match self {
            Literal::I32(x) => Value::I32(*x),
            Literal::Text(s) => Value::Text(*s),
        }
    }
}

/// The sub-value of `v` reached by descending through member positions
/// `path`, if every step stays inside a composite value.
pub open spec fn spec_read_path(v: Value, path: Seq<usize>) -> Option<Value>
    decreases path.len(),
{
    if path.len() == 0 {
        Some(v)
    } else {
        match v.spec_members() {
            Some(f) => if (path[0] as int) < f@.len() {
                spec_read_path(f@[path[0] as int], path.drop_first())
            } else {
                None
            },
            None => None,
        }
    }
}

/// `v` and `r` are the same kind of composite; an iterator keeps its cursor.
pub open spec fn spec_same_shell(v: Value, r: Value) -> bool {
    match (v, r) {
        (Value::StructVal(_), Value::StructVal(_)) => true,
        (Value::ListVal(_), Value::ListVal(_)) => true,
        (Value::IterVal(_, c1), Value::IterVal(_, c2)) => c1 == c2,
        _ => false,
    }
}

/// `r` is `v` with the sub-value at `path` replaced by `nv` and everything
/// else unchanged.
pub open spec fn spec_wrote_path(v: Value, path: Seq<usize>, nv: Value, r: Value) -> bool
    decreases path.len(),
{
    if path.len() == 0 {
        r == nv
    } else {
        match v.spec_members() {
            Some(f) => {
                &&& (path[0] as int) < f@.len()
                &&& spec_same_shell(v, r)
                &&& match r.spec_members() {
                    Some(g) => {
                        &&& g@.len() == f@.len()
                        &&& (forall|j: int|
                            0 <= j < f@.len() && j != path[0] as int ==> g@[j] == f@[j])
                        &&& spec_wrote_path(f@[path[0] as int], path.drop_first(), nv, g@[path[0] as int])
                    },
                    None => false,
                }
            },
            None => false,
        }
    }
}

/// Writing a sub-value and then reading back along the same path yields
/// exactly the value written.  This is the buildup/breakdown inverse at the
/// value level: a member assembled into a structure is the member its
/// breakdown projects out again.
pub proof fn lemma_write_read_roundtrip(v: Value, path: Seq<usize>, nv: Value, r: Value)
    requires
        spec_wrote_path(v, path, nv, r),
    ensures
        spec_read_path(r, path) == Some(nv),
    decreases path.len(),
{
    if path.len() > 0 {
        match v.spec_members() {
            Some(f) => {
                match r.spec_members() {
                    Some(g) => {
                        lemma_write_read_roundtrip(
                            f@[path[0] as int],
                            path.drop_first(),
                            nv,
                            g@[path[0] as int],
                        );
                    },
                    None => {},
                }
            },
            None => {},
        }
    }
}

/// Writing one member of a composite value replaces exactly that member:
/// the written position reads as the new value and every sibling keeps the
/// value it had.
pub proof fn lemma_member_write(v: Value, i: usize, nv: Value, r: Value)
    requires
        spec_wrote_path(v, seq![i], nv, r),
    ensures
        v.spec_members() is Some,
        r.spec_members() is Some,
        r.spec_members()->0@.len() == v.spec_members()->0@.len(),
        (i as int) < v.spec_members()->0@.len(),
        r.spec_members()->0@[i as int] == nv,
        forall|j: int|
            0 <= j < v.spec_members()->0@.len() && j != i as int ==> r.spec_members()->0@[j]
                == v.spec_members()->0@[j],
{
    assert(seq![i][0] == i);
    assert(seq![i].drop_first() =~= Seq::<usize>::empty());
    match v.spec_members() {
        Some(f) => {
            match r.spec_members() {
                Some(g) => {
                    assert(spec_wrote_path(f@[i as int], seq![i].drop_first(), nv, g@[i as int]));
                    assert(g@[i as int] == nv);
                },
                None => {},
            }
        },
        None => {},
    }
}

/// Reads the sub-value of `v` at `path[i..]`.
pub fn read_path<'a>(v: &'a Value, path: &Vec<usize>, i: usize) -> (r: Option<&'a Value>)
    requires
        i <= path@.len(),
    ensures
        r matches Some(x) ==> spec_read_path(*v, path@.skip(i as int)) == Some(*x),
        r is None <==> spec_read_path(*v, path@.skip(i as int)) is None,
    decreases path@.len() - i,
{
    if i == path.len() {
        proof {
            assert(path@.skip(i as int) =~= Seq::<usize>::empty());
        }
        Some(v)
    } else {
        proof {
            assert(path@.skip(i as int).drop_first() =~= path@.skip(i as int + 1));
            assert(path@.skip(i as int)[0] == path@[i as int]);
        }
        match v.members() {
            Some(f) => match f.try_get(path[i]) {
                Some(x) => read_path(x, path, i + 1),
                None => None,
            },
            None => None,
        }
    }
}

/// Replaces the sub-value of `v` at `path[i..]` with `nv`, rebuilding the
/// spine of composites around it.
pub fn write_path(v: &Value, path: &Vec<usize>, i: usize, nv: Value) -> (r: Option<Value>)
    requires
        i <= path@.len(),
    ensures
        r matches Some(x) ==> spec_wrote_path(*v, path@.skip(i as int), nv, x),
        r is Some <==> spec_read_path(*v, path@.skip(i as int)) is Some,
    decreases path@.len() - i,
{
    if i == path.len() {
        proof {
            assert(path@.skip(i as int) =~= Seq::<usize>::empty());
        }
        Some(nv)
    } else {
        proof {
            assert(path@.skip(i as int).drop_first() =~= path@.skip(i as int + 1));
            assert(path@.skip(i as int)[0] == path@[i as int]);
        }
        let idx = path[i];
        match v.members() {
            Some(f) => match f.try_get(idx) {
                Some(x) => {
                    let inner = match write_path(x, path, i + 1, nv) {
                        Some(y) => y,
                        None => {
                            return None;
                        },
                    };
                    let nf = match f.try_update(idx, inner) {
                        Some(nf) => nf,
                        None => {
                            return None;
                        },
                    };
                    match v {
                        Value::StructVal(_) => Some(Value::StructVal(Box::new(nf))),
                        Value::ListVal(_) => Some(Value::ListVal(Box::new(nf))),
                        Value::IterVal(_, c) => Some(Value::IterVal(Box::new(nf), *c)),
                        _ => None,
                    }
                },
                None => None,
            },
            None => None,
        }
    }
}

} // verus!
