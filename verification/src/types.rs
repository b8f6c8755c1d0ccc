//! Semantic types, access modes and the registries that describe the host
//! environment: the table of callable functions and the table of structure
//! layouts.

use vstd::prelude::*;

verus! {

/// How a value is held: by ownership, by shared reference or by exclusive
/// reference.  Any two connected data ports must agree on the mode.
#[derive(Clone, Copy, Debug, PartialEq, Eq, Structural)]
pub enum AccessMode {
    Owned,
    SharedRef,
    ExclusiveRef,
}

/// The semantic type carried by a data port or declared by a function
/// parameter.  Structure types are identified by their index in the
/// [`TypeRegistry`].
#[derive(Clone, Copy, Debug, PartialEq, Eq, Structural)]
pub enum Ty {
    I32,
    Text,
    StructTy(usize),
    ListTy,
    QueryTy,
}

/// A literal chosen by the user on a primitive node.  The value is cloned
/// into the instruction stream at compile time.
#[derive(Clone, Debug, PartialEq, Eq)]
pub enum Literal {
    I32(i32),
    Text(String),
}

impl Literal {
    /// The semantic type of the literal.
    pub fn ty(&self) -> (t: Ty)
        ensures
            t == self.spec_ty(),
    {
        match self {
            Literal::I32(_) => Ty::I32,
            Literal::Text(_) => Ty::Text,
        }
    }

    pub open spec fn spec_ty(&self) -> Ty {
        match self {
            Literal::I32(_) => Ty::I32,
            Literal::Text(_) => Ty::Text,
        }
    }
}

/// One component access declared on a query node: the record handle itself,
/// a shared reference to a component, or an exclusive reference to one.
#[derive(Clone, Copy, Debug, PartialEq, Eq, Structural)]
pub enum QueryDataType {
    Entity,
    Ref(Ty),
    Mut(Ty),
}

/// The declared layout of one structure type: the semantic type of each
/// field, in field order.
#[derive(Clone, Debug)]
pub struct StructDef {
    pub fields: Vec<Ty>,
}

/// The table of structure layouts.  A structure's fields may themselves be
/// structures, but only ones registered earlier, so field types never form a
/// cycle.
#[derive(Clone, Debug)]
pub struct TypeRegistry {
    pub structs: Vec<StructDef>,
}

impl TypeRegistry {
    /// Field types of the structure at `sid` refer only to structures below
    /// `bound`.
    pub open spec fn struct_refs_below(&self, sid: int, bound: int) -> bool {
        forall|j: int|
            0 <= j < self.structs@[sid].fields@.len() ==> match #[trigger] self.structs@[sid].fields@[j] {
                Ty::StructTy(s) => s < bound,
                _ => true,
            }
    }

    /// Every structure's fields refer only to structures registered before
    /// it, so recursion over field types is well founded.
    pub open spec fn wf(&self) -> bool {
        forall|i: int| 0 <= i < self.structs@.len() ==> #[trigger] self.struct_refs_below(i, i)
    }

    pub fn new() -> (r: TypeRegistry)
        ensures
            r.wf(),
            r.structs@.len() == 0,
    {
        TypeRegistry { structs: Vec::new() }
    }

    /// Registers a structure layout and returns its identifier.  The layout
    /// is refused (and the registry left unchanged) if any field names a
    /// structure that is not yet registered.
    pub fn register_struct(&mut self, def: StructDef) -> (r: Option<usize>)
        requires
            old(self).wf(),
        ensures
            final(self).wf(),
            r matches Some(sid) ==> {
                &&& sid == old(self).structs@.len()
                &&& final(self).structs@ == old(self).structs@.push(def)
            },
            r is None ==> *final(self) == *old(self),
    {
        let n = self.structs.len();
        let mut j: usize = 0;
        while j < def.fields.len()
            invariant
                *self == *old(self),
                self.wf(),
                0 <= j <= def.fields@.len(),
                forall|k: int|
                    0 <= k < j ==> match #[trigger] def.fields@[k] {
                        Ty::StructTy(s) => s < n,
                        _ => true,
                    },
            decreases def.fields@.len() - j,
        {
            match def.fields[j] {
                Ty::StructTy(s) => {
                    if s >= n {
                        return None;
                    }
                },
                _ => {},
            }
            j += 1;
        }
        self.structs.push(def);
        proof {
            assert forall|i: int| 0 <= i < self.structs@.len() implies #[trigger] self.struct_refs_below(
                i,
                i,
            ) by {
                if i < old(self).structs@.len() {
                    assert(old(self).struct_refs_below(i, i));
                    assert(self.structs@[i] == old(self).structs@[i]);
                } else {
                    assert(self.structs@[i] == def);
                }
            }
        }
        Some(n)
    }

    /// The number of fields of the structure `sid`, if registered.
    pub fn field_count(&self, sid: usize) -> (r: Option<usize>)
        ensures
            r matches Some(n) ==> sid < self.structs@.len() && n == self.structs@[sid as int].fields@.len(),
            r is None <==> sid >= self.structs@.len(),
    {
        if sid < self.structs.len() {
            Some(self.structs[sid].fields.len())
        } else {
            None
        }
    }

    /// The semantic type of field `idx` of structure `sid`, if both exist.
    pub fn field_ty(&self, sid: usize, idx: usize) -> (r: Option<Ty>)
        ensures
            r matches Some(t) ==> {
                &&& sid < self.structs@.len()
                &&& idx < self.structs@[sid as int].fields@.len()
                &&& t == self.structs@[sid as int].fields@[idx as int]
            },
            r is None <==> (sid >= self.structs@.len() || idx
                >= self.structs@[sid as int].fields@.len()),
    {
        if sid < self.structs.len() {
            let def = &self.structs[sid];
            if idx < def.fields.len() {
                return Some(def.fields[idx]);
            }
        }
        None
    }
}

/// The declared signature of one callable of the host's function table:
/// each parameter's semantic type and access mode, and the return type and
/// mode if the callable returns a value.
#[derive(Clone, Debug)]
pub struct FunctionDef {
    pub params: Vec<(Ty, AccessMode)>,
    pub ret: Option<(Ty, AccessMode)>,
}

/// The table of callables the compiler and the machine may reference.  The
/// table only declares signatures; invocation itself is performed by the
/// host at run time.
#[derive(Clone, Debug)]
pub struct FunctionRegistry {
    pub functions: Vec<FunctionDef>,
}

impl FunctionRegistry {
    /// Every signature's parameter list leaves room for the function's flow
    /// port, so a node's input ports can be counted in a machine word.
    pub open spec fn wf(&self) -> bool {
        forall|i: int|
            0 <= i < self.functions@.len() ==> (#[trigger] self.functions@[i]).params@.len()
                < usize::MAX
    }

    pub fn new() -> (r: FunctionRegistry)
        ensures
            r.functions@.len() == 0,
            r.wf(),
    {
        FunctionRegistry { functions: Vec::new() }
    }

    /// Registers a callable's signature and returns its handle.
    pub fn register(&mut self, def: FunctionDef) -> (r: usize)
        requires
            def.params@.len() < usize::MAX,
        ensures
            r == old(self).functions@.len(),
            final(self).functions@ == old(self).functions@.push(def),
            old(self).wf() ==> final(self).wf(),
    {
        let n = self.functions.len();
        self.functions.push(def);
        n
    }

    /// The signature bound to `handle`, if any.
    pub fn get(&self, handle: usize) -> (r: Option<&FunctionDef>)
        ensures
            r matches Some(d) ==> handle < self.functions@.len() && *d == self.functions@[handle as int],
            r is None <==> handle >= self.functions@.len(),
    {
        if handle < self.functions.len() {
            Some(&self.functions[handle])
        } else {
            None
        }
    }
}

} // verus!
