//! The stack machine.
//!
//! Execution is a single linear pass over the instruction vector with an
//! explicit value stack.  Each stack entry is either an owned value or a
//! checked handle — shared or exclusive — to a place inside an owned value
//! lower on the stack.  A handle records the generation its target cell was
//! pushed with, so a handle that outlives its target is caught instead of
//! reading whatever took the slot.  Calls and queries go to the host; the
//! machine assumes nothing about what comes back and checks everything.

use crate::bytecode::Bytecode;
use crate::types::{AccessMode, FunctionDef, FunctionRegistry, QueryDataType};
use crate::value::{Fields, Value, spec_read_path, spec_wrote_path};
use vstd::prelude::*;

verus! {

/// A checked handle to a sub-value: the stack cell it roots in, the
/// generation that cell was pushed with, and the member positions to descend
/// through.
#[derive(Debug)]
pub struct Place {
    pub base: usize,
    pub gen: u64,
    pub path: Vec<usize>,
}

/// One stack entry: an owned value, or a handle held in shared or exclusive
/// mode.
#[derive(Debug)]
pub enum Slot {
    Owned(Value),
    Shared(Place),
    Excl(Place),
}

/// A stack cell: the entry itself and the generation it was pushed with.
#[derive(Debug)]
pub struct StackCell {
    pub gen: u64,
    pub slot: Slot,
}

/// Why a run aborted.  Every failure is terminal for the current run.
#[derive(Clone, Copy, Debug, PartialEq, Eq, Structural)]
pub enum RunError {
    /// An instruction needed more stack entries than there are.
    StackUnderflow,
    /// A slot operand lies beyond the top of the stack.
    BadSlot { slot: usize },
    /// A handle outlived the cell it roots in.
    StaleHandle,
    /// A value had no member at the demanded position.
    BadPath,
    /// A field projection or mutation hit a value that is not structurally
    /// inspectable, or a mutation reached a value held only by shared
    /// reference.
    NotAStruct,
    /// Mutation was attempted through a shared reference.
    MutateSharedValue,
    /// A whole-value write needs an exclusive handle as its receiver.
    NotExclusive,
    /// The exploded value is not a list.
    NotAList,
    /// The exploded list does not have the declared length.
    ListLengthMismatch,
    /// The value under the iterator instruction cannot be iterated.
    NotIterable,
    /// A jump target lies beyond the end of the program.
    BadJumpTarget { target: usize },
    /// A call names a handle the function table does not know.
    UnknownFunction { handle: usize },
    /// A popped argument cannot be routed to the callee's declared parameter
    /// mode.
    ArgumentModeMismatch,
    /// The host's answer does not fit the callee's declared signature.
    CallOutcomeMismatch,
    /// A resource guard of this implementation was hit: the step budget or
    /// the generation counter ran out.
    LimitExceeded,
}

/// What the host returns from one invocation: the arguments as they stand
/// after the call (so exclusive borrows can be written back) and the return
/// value, if any.
#[derive(Debug)]
pub struct CallOutcome {
    pub args_after: Vec<Value>,
    pub ret: Option<Value>,
}

/// The host object model: it performs dynamic function invocation and binds
/// queries to its live records.  The machine assumes nothing about either
/// operation beyond what it checks itself.
pub trait Host {
    /// Invokes the function table entry `handle` on `args`.
    fn invoke(&mut self, handle: usize, args: Vec<Value>) -> CallOutcome;

    /// The records matching the declared component accesses, materialized.
    fn run_query(&mut self, accesses: &Vec<QueryDataType>) -> Vec<Value>;
}

/// A handle is live: its base cell exists, carries the generation the handle
/// was created with, and holds an owned value.
pub open spec fn spec_place_ok(stack: Seq<StackCell>, base: usize, gen: u64) -> bool {
    &&& (base as int) < stack.len()
    &&& stack[base as int].gen == gen
    &&& stack[base as int].slot is Owned
}

/// The value a handle designates, if it is live and its path stays inside
/// composite values.
pub open spec fn spec_place_value(stack: Seq<StackCell>, base: usize, gen: u64, path: Seq<usize>) -> Option<
    Value,
> {
    if spec_place_ok(stack, base, gen) {
        spec_read_path(stack[base as int].slot->Owned_0, path)
    } else {
        None
    }
}

/// The value a stack entry stands for: itself if owned, its target if a
/// handle.
pub open spec fn spec_slot_value(stack: Seq<StackCell>, s: Slot) -> Option<Value> {
    match s {
        Slot::Owned(v) => Some(v),
        Slot::Shared(p) => spec_place_value(stack, p.base, p.gen, p.path@),
        Slot::Excl(p) => spec_place_value(stack, p.base, p.gen, p.path@),
    }
}

/// The machine: the value stack and the generation counter its handles are
/// checked against.  Both live for one run.
pub struct Vm {
    pub stack: Vec<StackCell>,
    pub next_gen: u64,
}

impl Vm {
    pub fn new() -> (r: Vm)
        ensures
            r.stack@.len() == 0,
            r.next_gen == 0,
    {
        Vm { stack: Vec::new(), next_gen: 0 }
    }

    /// Pushes `s` as a fresh cell.
    fn push_slot(&mut self, s: Slot) -> (r: Result<(), RunError>)
        ensures
            r is Ok ==> {
                &&& final(self).stack@ == old(self).stack@.push(
                    StackCell { gen: old(self).next_gen, slot: s },
                )
                &&& final(self).next_gen == old(self).next_gen + 1
            },
            r is Err ==> *final(self) == *old(self) && old(self).next_gen == u64::MAX && r
                == Err::<(), RunError>(RunError::LimitExceeded),
    {
        if self.next_gen == u64::MAX {
            return Err(RunError::LimitExceeded);
        }
        let g = self.next_gen;
        self.next_gen = g + 1;
        self.stack.push(StackCell { gen: g, slot: s });
        Ok(())
    }

    /// The value the handle `(base, gen, path)` designates, copied out.
    fn place_value(&self, base: usize, gen: u64, path: &Vec<usize>) -> (r: Result<Value, RunError>)
        ensures
            r matches Ok(v) ==> spec_place_value(self.stack@, base, gen, path@) == Some(v),
            r is Err <==> spec_place_value(self.stack@, base, gen, path@) is None,
            r matches Err(e) ==> (e is StaleHandle <==> !spec_place_ok(self.stack@, base, gen)),
            r matches Err(e) ==> (e is StaleHandle || e is BadPath),
    {
        if base >= self.stack.len() {
            return Err(RunError::StaleHandle);
        }
        let cell = &self.stack[base];
        if cell.gen != gen {
            return Err(RunError::StaleHandle);
        }
        let root = match &cell.slot {
            Slot::Owned(v) => v,
            _ => {
                return Err(RunError::StaleHandle);
            },
        };
        proof {
            assert(path@.skip(0) =~= path@);
        }
        match crate::value::read_path(root, path, 0) {
            Some(v) => Ok(v.duplicate()),
            None => Err(RunError::BadPath),
        }
    }

    /// The value the stack entry at `idx` stands for, copied out.
    pub fn slot_value(&self, idx: usize) -> (r: Result<Value, RunError>)
        ensures
            r matches Ok(v) ==> idx < self.stack@.len() && spec_slot_value(
                self.stack@,
                self.stack@[idx as int].slot,
            ) == Some(v),
            r is Err <==> (idx >= self.stack@.len() || spec_slot_value(
                self.stack@,
                self.stack@[idx as int].slot,
            ) is None),
            r matches Err(e) ==> (e matches RunError::BadSlot { slot: b } ==> b == idx),
            r matches Err(e) ==> (e is BadSlot || e is StaleHandle || e is BadPath),
    {
        if idx >= self.stack.len() {
            return Err(RunError::BadSlot { slot: idx });
        }
        match &self.stack[idx].slot {
            Slot::Owned(v) => Ok(v.duplicate()),
            Slot::Shared(p) => self.place_value(p.base, p.gen, &p.path),
            Slot::Excl(p) => self.place_value(p.base, p.gen, &p.path),
        }
    }

    /// The value the top stack entry stands for, copied out.
    pub fn top_value(&self) -> (r: Result<Value, RunError>)
        ensures
            self.stack@.len() == 0 ==> r == Err::<Value, RunError>(RunError::StackUnderflow),
            r matches Ok(v) ==> self.stack@.len() > 0 && spec_slot_value(
                self.stack@,
                self.stack@.last().slot,
            ) == Some(v),
            r is Err <==> (self.stack@.len() == 0 || spec_slot_value(
                self.stack@,
                self.stack@.last().slot,
            ) is None),
    {
        if self.stack.len() == 0 {
            return Err(RunError::StackUnderflow);
        }
        self.slot_value(self.stack.len() - 1)
    }

    /// Discards the top of the stack.
    pub fn exec_pop(&mut self) -> (r: Result<(), RunError>)
        ensures
            r is Ok <==> old(self).stack@.len() > 0,
            r is Ok ==> final(self).stack@ == old(self).stack@.drop_last() && final(self).next_gen
                == old(self).next_gen,
            r is Err ==> final(self).stack@ == old(self).stack@ && final(self).next_gen == old(self).next_gen && r == Err::<(), RunError>(RunError::StackUnderflow),
    {
        match self.stack.pop() {
            Some(_) => Ok(()),
            None => Err(RunError::StackUnderflow),
        }
    }

    /// Pushes an owned value.
    pub fn exec_push_literal(&mut self, v: Value) -> (r: Result<(), RunError>)
        ensures
            r is Ok ==> final(self).stack@ == old(self).stack@.push(
                StackCell { gen: old(self).next_gen, slot: Slot::Owned(v) },
            ) && final(self).next_gen == old(self).next_gen + 1,
            r is Err <==> old(self).next_gen == u64::MAX,
            r is Err ==> *final(self) == *old(self) && r == Err::<(), RunError>(
                RunError::LimitExceeded,
            ),
    {
        self.push_slot(Slot::Owned(v))
    }

    /// Pushes a mode-preserving copy of the entry at `slot`: an owned value
    /// is copied, a handle is re-issued as it stands.
    pub fn exec_duplicate(&mut self, slot: usize) -> (r: Result<(), RunError>)
        ensures
            r is Ok ==> slot < old(self).stack@.len() && final(self).stack@.len() == old(self).stack@.len() + 1 && final(self).stack@.drop_last() == old(self).stack@ && ({
                let pushed = final(self).stack@.last().slot;
                let orig = old(self).stack@[slot as int].slot;
                match orig {
                    Slot::Owned(v) => pushed matches Slot::Owned(v2) && v2 == v,
                    Slot::Shared(p) => pushed matches Slot::Shared(p2) && p2.base == p.base
                        && p2.gen == p.gen && p2.path@ == p.path@,
                    Slot::Excl(p) => pushed matches Slot::Excl(p2) && p2.base == p.base && p2.gen
                        == p.gen && p2.path@ == p.path@,
                }
            }),
            r matches Err(e) ==> *final(self) == *old(self) && (e matches RunError::BadSlot {
                slot: b,
            } ==> b == slot),
            r is Err ==> (slot >= old(self).stack@.len() || old(self).next_gen == u64::MAX),
    {
        if slot >= self.stack.len() {
            return Err(RunError::BadSlot { slot });
        }
        let copy = match &self.stack[slot].slot {
            Slot::Owned(v) => Slot::Owned(v.duplicate()),
            Slot::Shared(p) => Slot::Shared(dup_place(p)),
            Slot::Excl(p) => Slot::Excl(dup_place(p)),
        };
        let r = self.push_slot(copy);
        proof {
            if r is Ok {
                assert(self.stack@.drop_last() =~= old(self).stack@);
            }
        }
        r
    }
}

/// The member at `fidx` of the value the entry at `idx` stands for.
pub open spec fn spec_field_of(stack: Seq<StackCell>, idx: usize, fidx: usize) -> Option<Value> {
    if (idx as int) < stack.len() {
        match spec_slot_value(stack, stack[idx as int].slot) {
            Some(v) => match v.spec_members() {
                Some(f) => if (fidx as int) < f@.len() {
                    Some(f@[fidx as int])
                } else {
                    None
                },
                None => None,
            },
            None => None,
        }
    } else {
        None
    }
}

/// Reading one step past `path` reads the member at that step of what `path`
/// reaches.
proof fn lemma_read_path_snoc(v: Value, path: Seq<usize>, i: usize)
    ensures
        spec_read_path(v, path.push(i)) == (match spec_read_path(v, path) {
            Some(x) => match x.spec_members() {
                Some(f) => if (i as int) < f@.len() {
                    Some(f@[i as int])
                } else {
                    None::<Value>
                },
                None => None::<Value>,
            },
            None => None::<Value>,
        }),
    decreases path.len(),
{
    if path.len() == 0 {
        assert(path.push(i)[0] == i);
        assert(path.push(i).drop_first() =~= Seq::<usize>::empty());
    } else {
        assert(path.push(i)[0] == path[0]);
        assert(path.push(i).drop_first() =~= path.drop_first().push(i));
        match v.spec_members() {
            Some(f) => {
                if (path[0] as int) < f@.len() {
                    lemma_read_path_snoc(f@[path[0] as int], path.drop_first(), i);
                }
            },
            None => {},
        }
    }
}

impl Vm {
    /// Overwrites the sub-value a live handle designates, leaving every
    /// other cell and the cell's generation untouched.
    fn write_place_value(&mut self, base: usize, gen: u64, path: &Vec<usize>, nv: Value) -> (r:
        Result<(), RunError>)
        ensures
            r is Ok ==> {
                &&& spec_place_value(old(self).stack@, base, gen, path@) is Some
                &&& final(self).stack@.len() == old(self).stack@.len()
                &&& final(self).next_gen == old(self).next_gen
                &&& (forall|i: int|
                    0 <= i < old(self).stack@.len() && i != base as int
                        ==> final(self).stack@[i] == old(self).stack@[i])
                &&& final(self).stack@[base as int].gen == gen
                &&& (final(self).stack@[base as int].slot matches Slot::Owned(root2)
                    && spec_wrote_path(
                    old(self).stack@[base as int].slot->Owned_0,
                    path@,
                    nv,
                    root2,
                ))
            },
            r is Err ==> *final(self) == *old(self) && spec_place_value(
                old(self).stack@,
                base,
                gen,
                path@,
            ) is None,
            r matches Err(e) ==> (e is StaleHandle || e is BadPath),
    {
        if base >= self.stack.len() {
            return Err(RunError::StaleHandle);
        }
        if self.stack[base].gen != gen {
            return Err(RunError::StaleHandle);
        }
        let root = match &self.stack[base].slot {
            Slot::Owned(v) => v,
            _ => {
                return Err(RunError::StaleHandle);
            },
        };
        proof {
            assert(path@.skip(0) =~= path@);
        }
        let new_root = match crate::value::write_path(root, path, 0, nv) {
            Some(x) => x,
            None => {
                return Err(RunError::BadPath);
            },
        };
        self.stack[base] = StackCell { gen, slot: Slot::Owned(new_root) };
        Ok(())
    }

    /// Pushes an owned clone of the member at `fidx` of the value the entry
    /// at `slot` stands for.
    pub fn exec_field_clone(&mut self, slot: usize, fidx: usize) -> (r: Result<(), RunError>)
        ensures
            r is Ok ==> (spec_field_of(old(self).stack@, slot, fidx) matches Some(fv)
                && final(self).stack@ == old(self).stack@.push(
                StackCell { gen: old(self).next_gen, slot: Slot::Owned(fv) },
            )),
            r is Err ==> final(self).stack@ == old(self).stack@ && (spec_field_of(
                old(self).stack@,
                slot,
                fidx,
            ) is None || old(self).next_gen == u64::MAX),
    {
        let v = self.slot_value(slot)?;
        let f = match v.members() {
            Some(f) => f,
            None => {
                return Err(RunError::NotAStruct);
            },
        };
        let fv = match f.try_get(fidx) {
            Some(x) => x.duplicate(),
            None => {
                return Err(RunError::BadPath);
            },
        };
        self.push_slot(Slot::Owned(fv))
    }

    /// Pushes a handle, in the given mode, to the member at `fidx` of the
    /// entry at `slot`.  A handle to an owned cell roots there; a handle
    /// taken through an existing handle extends its path.  An exclusive
    /// handle is never issued through a shared one.
    fn field_handle(&mut self, slot: usize, fidx: usize, exclusive: bool) -> (r: Result<
        (),
        RunError,
    >)
        ensures
            r is Ok ==> {
                &&& spec_field_of(old(self).stack@, slot, fidx) is Some
                &&& final(self).stack@.len() == old(self).stack@.len() + 1
                &&& final(self).stack@.drop_last() == old(self).stack@
                &&& final(self).next_gen == old(self).next_gen + 1
                &&& ({
                    let pushed = final(self).stack@.last();
                    let orig = old(self).stack@[slot as int].slot;
                    &&& pushed.gen == old(self).next_gen
                    &&& (match (exclusive, pushed.slot) {
                        (false, Slot::Shared(p2)) => spec_handle_extends(
                            old(self).stack@,
                            slot,
                            fidx,
                            p2,
                        ),
                        (true, Slot::Excl(p2)) => spec_handle_extends(
                            old(self).stack@,
                            slot,
                            fidx,
                            p2,
                        ),
                        _ => false,
                    })
                })
            },
            r is Err ==> final(self).stack@ == old(self).stack@,
            (exclusive && slot < old(self).stack@.len() && old(self).stack@[slot as int].slot
                is Shared) ==> r == Err::<(), RunError>(RunError::MutateSharedValue),
            r is Err <==> (spec_field_of(old(self).stack@, slot, fidx) is None || old(self).next_gen
                == u64::MAX || (exclusive && slot < old(self).stack@.len() && old(self).stack@[slot as int].slot is Shared)),
    {
        if slot >= self.stack.len() {
            return Err(RunError::BadSlot { slot });
        }
        let cell_gen = self.stack[slot].gen;
        let place = match &self.stack[slot].slot {
            Slot::Owned(v) => {
                let f = match v.members() {
                    Some(f) => f,
                    None => {
                        return Err(RunError::NotAStruct);
                    },
                };
                if f.try_get(fidx).is_none() {
                    return Err(RunError::BadPath);
                }
                let mut path: Vec<usize> = Vec::new();
                path.push(fidx);
                proof {
                    assert(path@ =~= seq![fidx]);
                    assert(Seq::<usize>::empty().push(fidx) =~= seq![fidx]);
                    lemma_read_path_snoc(*v, Seq::<usize>::empty(), fidx);
                }
                Place { base: slot, gen: cell_gen, path }
            },
            Slot::Shared(p) => {
                if exclusive {
                    return Err(RunError::MutateSharedValue);
                }
                let tv = self.place_value(p.base, p.gen, &p.path)?;
                let f = match tv.members() {
                    Some(f) => f,
                    None => {
                        return Err(RunError::NotAStruct);
                    },
                };
                if f.try_get(fidx).is_none() {
                    return Err(RunError::BadPath);
                }
                let mut np = dup_place(p);
                np.path.push(fidx);
                proof {
                    lemma_read_path_snoc(
                        old(self).stack@[p.base as int].slot->Owned_0,
                        p.path@,
                        fidx,
                    );
                }
                np
            },
            Slot::Excl(p) => {
                let tv = self.place_value(p.base, p.gen, &p.path)?;
                let f = match tv.members() {
                    Some(f) => f,
                    None => {
                        return Err(RunError::NotAStruct);
                    },
                };
                if f.try_get(fidx).is_none() {
                    return Err(RunError::BadPath);
                }
                let mut np = dup_place(p);
                np.path.push(fidx);
                proof {
                    lemma_read_path_snoc(
                        old(self).stack@[p.base as int].slot->Owned_0,
                        p.path@,
                        fidx,
                    );
                }
                np
            },
        };
        let r = if exclusive {
            self.push_slot(Slot::Excl(place))
        } else {
            self.push_slot(Slot::Shared(place))
        };
        proof {
            if r is Ok {
                assert(self.stack@.drop_last() =~= old(self).stack@);
            }
        }
        r
    }

    /// Pushes a shared handle to the member at `fidx` of the entry at
    /// `slot`.
    pub fn exec_field_ref(&mut self, slot: usize, fidx: usize) -> (r: Result<(), RunError>)
        ensures
            r is Ok ==> spec_field_of(old(self).stack@, slot, fidx) is Some
                && final(self).stack@.len() == old(self).stack@.len() + 1
                && final(self).stack@.drop_last() == old(self).stack@
                && (final(self).stack@.last().slot matches Slot::Shared(p)
                && spec_handle_extends(old(self).stack@, slot, fidx, p)),
            r is Err ==> final(self).stack@ == old(self).stack@,
            r is Err <==> (spec_field_of(old(self).stack@, slot, fidx) is None || old(self).next_gen
                == u64::MAX),
    {
        self.field_handle(slot, fidx, false)
    }

    /// Pushes an exclusive handle to the member at `fidx` of the entry at
    /// `slot`.  A value held only by shared reference cannot be opened for
    /// mutation.
    pub fn exec_field_mut_ref(&mut self, slot: usize, fidx: usize) -> (r: Result<(), RunError>)
        ensures
            r is Ok ==> spec_field_of(old(self).stack@, slot, fidx) is Some
                && final(self).stack@.len() == old(self).stack@.len() + 1
                && final(self).stack@.drop_last() == old(self).stack@
                && (final(self).stack@.last().slot matches Slot::Excl(p)
                && spec_handle_extends(old(self).stack@, slot, fidx, p)),
            r is Err ==> final(self).stack@ == old(self).stack@,
            old(self).stack@.len() > slot && old(self).stack@[slot as int].slot is Shared ==> r
                == Err::<(), RunError>(RunError::MutateSharedValue),
            r is Err <==> (spec_field_of(old(self).stack@, slot, fidx) is None || old(self).next_gen
                == u64::MAX || (slot < old(self).stack@.len() && old(self).stack@[slot as int].slot
                is Shared)),
    {
        self.field_handle(slot, fidx, true)
    }
}

/// `arg` is what routing the stack entry at `idx` to a parameter of the
/// given mode hands the callee, and `wb` the handle its post-call value is
/// written back through: an owned parameter takes an owned entry's value, a
/// shared parameter reads any entry, an exclusive parameter lends an owned
/// value transiently or reads through an exclusive handle and remembers it.
pub open spec fn spec_arg_routed(
    stack: Seq<StackCell>,
    idx: int,
    mode: AccessMode,
    arg: Value,
    wb: Option<Place>,
) -> bool {
    match mode {
        AccessMode::Owned => stack[idx].slot matches Slot::Owned(v) && arg == v && wb is None,
        AccessMode::SharedRef => spec_slot_value(stack, stack[idx].slot) == Some(arg) && wb
            is None,
        AccessMode::ExclusiveRef => match stack[idx].slot {
            Slot::Owned(v) => arg == v && wb is None,
            Slot::Excl(p) => spec_slot_value(stack, stack[idx].slot) == Some(arg) && (wb
                matches Some(p2) && p2.base == p.base && p2.gen == p.gen && p2.path@ == p.path@),
            Slot::Shared(_) => false,
        },
    }
}

/// No two write-back handles root in the same cell, so each written cell
/// receives exactly its own argument's post-call value.
pub open spec fn spec_writeback_bases_distinct(wb: Seq<Option<Place>>) -> bool {
    forall|k1: int, k2: int|
        0 <= k1 < k2 < wb.len() ==> match (#[trigger] wb[k1], #[trigger] wb[k2]) {
            (Some(p1), Some(p2)) => p1.base != p2.base,
            _ => true,
        }
}

/// Some argument among the top `arity` entries of `stack` is an exclusive
/// handle rooting at cell `i`.  Only such cells may be written by a call's
/// write-backs.
pub open spec fn spec_excl_arg_roots_at(stack: Seq<StackCell>, arity: int, i: int) -> bool {
    exists|k: int|
        0 <= k < arity && ((#[trigger] stack[stack.len() - arity + k].slot) matches Slot::Excl(p)
            && p.base == i)
}

impl Vm {
    /// Pushes an owned clone of the whole value the entry at `slot` stands
    /// for.
    pub fn exec_slot_clone(&mut self, slot: usize) -> (r: Result<(), RunError>)
        ensures
            r is Ok ==> slot < old(self).stack@.len() && (spec_slot_value(
                old(self).stack@,
                old(self).stack@[slot as int].slot,
            ) matches Some(v) && final(self).stack@ == old(self).stack@.push(
                StackCell { gen: old(self).next_gen, slot: Slot::Owned(v) },
            )),
            r is Err ==> final(self).stack@ == old(self).stack@,
            r is Err <==> (slot >= old(self).stack@.len() || spec_slot_value(
                old(self).stack@,
                old(self).stack@[slot as int].slot,
            ) is None || old(self).next_gen == u64::MAX),
    {
        let v = self.slot_value(slot)?;
        self.push_slot(Slot::Owned(v))
    }

    /// Pushes a handle, in the given mode, to the whole value at `slot`.  An
    /// exclusive handle is never issued over a shared one.
    fn whole_handle(&mut self, slot: usize, exclusive: bool) -> (r: Result<(), RunError>)
        ensures
            r is Ok ==> slot < old(self).stack@.len() && final(self).stack@.len() == old(self).stack@.len() + 1 && final(self).stack@.drop_last() == old(self).stack@ && (match (
                exclusive,
                final(self).stack@.last().slot,
            ) {
                (false, Slot::Shared(p2)) => spec_whole_handle(old(self).stack@, slot, p2),
                (true, Slot::Excl(p2)) => spec_whole_handle(old(self).stack@, slot, p2),
                _ => false,
            }),
            r is Err ==> final(self).stack@ == old(self).stack@,
            r is Err <==> (slot >= old(self).stack@.len() || old(self).next_gen == u64::MAX || (
            exclusive && slot < old(self).stack@.len() && old(self).stack@[slot as int].slot
                is Shared)),
            (exclusive && slot < old(self).stack@.len() && old(self).stack@[slot as int].slot
                is Shared) ==> r == Err::<(), RunError>(RunError::MutateSharedValue),
    {
        if slot >= self.stack.len() {
            return Err(RunError::BadSlot { slot });
        }
        let cell_gen = self.stack[slot].gen;
        let place = match &self.stack[slot].slot {
            Slot::Owned(_) => {
                let path: Vec<usize> = Vec::new();
                proof {
                    assert(path@ =~= Seq::<usize>::empty());
                }
                Place { base: slot, gen: cell_gen, path }
            },
            Slot::Shared(p) => {
                if exclusive {
                    return Err(RunError::MutateSharedValue);
                }
                dup_place(p)
            },
            Slot::Excl(p) => dup_place(p),
        };
        let rr = if exclusive {
            self.push_slot(Slot::Excl(place))
        } else {
            self.push_slot(Slot::Shared(place))
        };
        proof {
            if rr is Ok {
                assert(self.stack@.drop_last() =~= old(self).stack@);
            }
        }
        rr
    }

    /// Pushes a shared handle to the whole value at `slot`.
    pub fn exec_slot_ref(&mut self, slot: usize) -> (r: Result<(), RunError>)
        ensures
            r is Ok ==> slot < old(self).stack@.len() && final(self).stack@.len() == old(self).stack@.len() + 1 && final(self).stack@.drop_last() == old(self).stack@ && (final(self).stack@.last().slot matches Slot::Shared(p2) && spec_whole_handle(
                old(self).stack@,
                slot,
                p2,
            )),
            r is Err ==> final(self).stack@ == old(self).stack@,
            r is Err <==> (slot >= old(self).stack@.len() || old(self).next_gen == u64::MAX),
    {
        self.whole_handle(slot, false)
    }

    /// Pushes an exclusive handle to the whole value at `slot`.  A value
    /// held only by shared reference cannot be opened for mutation.
    pub fn exec_slot_mut_ref(&mut self, slot: usize) -> (r: Result<(), RunError>)
        ensures
            r is Ok ==> slot < old(self).stack@.len() && final(self).stack@.len() == old(self).stack@.len() + 1 && final(self).stack@.drop_last() == old(self).stack@ && (final(self).stack@.last().slot matches Slot::Excl(p2) && spec_whole_handle(
                old(self).stack@,
                slot,
                p2,
            )),
            r is Err ==> final(self).stack@ == old(self).stack@,
            r is Err <==> (slot >= old(self).stack@.len() || old(self).next_gen == u64::MAX || (
            slot < old(self).stack@.len() && old(self).stack@[slot as int].slot is Shared)),
            (slot < old(self).stack@.len() && old(self).stack@[slot as int].slot is Shared) ==> r
                == Err::<(), RunError>(RunError::MutateSharedValue),
    {
        self.whole_handle(slot, true)
    }

    /// Pops an applier value and an exclusively held receiver handle, and
    /// writes the applier as the receiver's whole new value.  Anything but
    /// an exclusive handle as the receiver is a fatal error.
    pub fn exec_apply(&mut self) -> (r: Result<(), RunError>)
        ensures
            r is Ok ==> ({
                let n = old(self).stack@.len();
                let av = spec_slot_value(old(self).stack@, old(self).stack@[n - 1].slot);
                &&& n >= 2
                &&& av is Some
                &&& final(self).stack@.len() == n - 2
                &&& (old(self).stack@[n - 2].slot matches Slot::Excl(p) && {
                    &&& (p.base as int) < n - 2
                    &&& (forall|i: int|
                        0 <= i < n - 2 && i != p.base as int ==> final(self).stack@[i] == old(self).stack@[i])
                    &&& final(self).stack@[p.base as int].gen == old(self).stack@[p.base as int].gen
                    &&& (final(self).stack@[p.base as int].slot matches Slot::Owned(root2)
                        && spec_wrote_path(
                        old(self).stack@[p.base as int].slot->Owned_0,
                        p.path@,
                        av->0,
                        root2,
                    ))
                })
            }),
            (old(self).stack@.len() >= 2 && old(self).stack@[old(self).stack@.len() - 2].slot
                is Shared) ==> r == Err::<(), RunError>(RunError::MutateSharedValue),
            (old(self).stack@.len() >= 2 && old(self).stack@[old(self).stack@.len() - 2].slot
                is Owned) ==> r == Err::<(), RunError>(RunError::NotExclusive),
            r is Err ==> final(self).stack@ == old(self).stack@,
    {
        let n = self.stack.len();
        if n < 2 {
            return Err(RunError::StackUnderflow);
        }
        let place = match &self.stack[n - 2].slot {
            Slot::Excl(p) => dup_place(p),
            Slot::Shared(_) => {
                return Err(RunError::MutateSharedValue);
            },
            Slot::Owned(_) => {
                return Err(RunError::NotExclusive);
            },
        };
        let av = self.slot_value(n - 1)?;
        if place.base >= n - 2 {
            return Err(RunError::StaleHandle);
        }
        self.write_place_value(place.base, place.gen, &place.path, av)?;
        self.stack.pop();
        self.stack.pop();
        Ok(())
    }
}

/// The members of the list value the top entry stands for, if it is one.
pub open spec fn spec_top_list(stack: Seq<StackCell>) -> Option<Seq<Value>> {
    if stack.len() > 0 {
        match spec_slot_value(stack, stack.last().slot) {
            Some(Value::ListVal(f)) => Some(f@),
            _ => None,
        }
    } else {
        None
    }
}

impl Vm {
    /// Pops a fixed-length list of exactly `n` members and pushes its
    /// members individually, first member lowest.
    pub fn exec_explode(&mut self, n: usize) -> (r: Result<(), RunError>)
        ensures
            r is Ok ==> (spec_top_list(old(self).stack@) matches Some(m) && {
                let base = old(self).stack@.len() - 1;
                &&& m.len() == n
                &&& final(self).stack@.len() == base + n
                &&& final(self).stack@.subrange(0, base as int) == old(self).stack@.drop_last()
                &&& (forall|j: int|
                    0 <= j < n ==> (#[trigger] final(self).stack@[base + j]).slot == Slot::Owned(
                        m[j],
                    ))
            }),
            r is Err ==> final(self).stack@ == old(self).stack@ && (spec_top_list(
                old(self).stack@,
            ) is None || spec_top_list(old(self).stack@)->0.len() != n || old(self).next_gen + n
                > u64::MAX),
    {
        if self.stack.len() == 0 {
            return Err(RunError::StackUnderflow);
        }
        let top = self.stack.len() - 1;
        let v = self.slot_value(top)?;
        let f = match v {
            Value::ListVal(f) => f,
            _ => {
                return Err(RunError::NotAList);
            },
        };
        let items = f.to_vec();
        if items.len() != n {
            return Err(RunError::ListLengthMismatch);
        }
        if n as u64 > u64::MAX - self.next_gen {
            return Err(RunError::LimitExceeded);
        }
        self.stack.pop();
        let ghost base_stack = self.stack@;
        let mut j: usize = 0;
        while j < n
            invariant
                j <= n,
                items@.len() == n,
                self.next_gen == old(self).next_gen + j,
                old(self).next_gen + n <= u64::MAX,
                self.stack@.len() == base_stack.len() + j,
                self.stack@.subrange(0, base_stack.len() as int) == base_stack,
                forall|k: int|
                    0 <= k < j ==> (#[trigger] self.stack@[base_stack.len() + k]).slot
                        == Slot::Owned(items@[k]),
            decreases n - j,
        {
            let ghost pre = self.stack@;
            match self.push_slot(Slot::Owned(items[j].duplicate())) {
                Ok(()) => {},
                Err(e) => {
                    return Err(e);
                },
            }
            proof {
                assert(self.stack@.subrange(0, base_stack.len() as int) =~= pre.subrange(
                    0,
                    base_stack.len() as int,
                ));
            }
            j += 1;
        }
        proof {
            assert(self.stack@.subrange(0, base_stack.len() as int) =~= old(self).stack@.drop_last());
        }
        Ok(())
    }

    /// Pops an applier value and a receiver, writes the applier into the
    /// receiver's member at `fidx`, and pushes the receiver back.  The
    /// receiver must be held owned or by exclusive reference; a receiver held
    /// only by shared reference is a fatal error.
    pub fn exec_assemble_apply(&mut self, fidx: usize) -> (r: Result<(), RunError>)
        ensures
            r is Ok ==> ({
                let n = old(self).stack@.len();
                let recv = old(self).stack@[n - 2].slot;
                let av = spec_slot_value(old(self).stack@, old(self).stack@[n - 1].slot);
                &&& n >= 2
                &&& av is Some
                &&& final(self).stack@.len() == n - 1
                &&& match recv {
                    Slot::Owned(v) => {
                        &&& final(self).stack@.subrange(0, n - 2) == old(self).stack@.subrange(
                            0,
                            n - 2,
                        )
                        &&& (final(self).stack@.last().slot matches Slot::Owned(v2)
                            && spec_wrote_path(v, seq![fidx], av->0, v2))
                    },
                    Slot::Excl(p) => {
                        &&& (p.base as int) < n - 2
                        &&& (forall|i: int|
                            0 <= i < n - 2 && i != p.base as int ==> final(self).stack@[i] == old(self).stack@[i])
                        &&& final(self).stack@[p.base as int].gen == old(self).stack@[p.base as int].gen
                        &&& (final(self).stack@[p.base as int].slot matches Slot::Owned(root2)
                            && spec_wrote_path(
                            old(self).stack@[p.base as int].slot->Owned_0,
                            p.path@.push(fidx),
                            av->0,
                            root2,
                        ))
                        &&& (final(self).stack@.last().slot matches Slot::Excl(p2) && p2.base
                            == p.base && p2.gen == p.gen && p2.path@ == p.path@)
                    },
                    Slot::Shared(_) => false,
                }
            }),
            (old(self).stack@.len() >= 2 && old(self).next_gen != u64::MAX && old(self).stack@[old(self).stack@.len() - 2].slot is Shared) ==> r == Err::<(), RunError>(
                RunError::MutateSharedValue,
            ),
            // Success is owed when the receiver is an owned composite with
            // the demanded member and the applier's value is readable.
            ({
                let n = old(self).stack@.len();
                &&& n >= 2
                &&& old(self).next_gen != u64::MAX
                &&& spec_slot_value(old(self).stack@, old(self).stack@[n - 1].slot) is Some
                &&& (old(self).stack@[n - 2].slot matches Slot::Owned(v) && (
                v.spec_members() matches Some(f) && (fidx as int) < f@.len()))
            }) ==> r is Ok,
            // Likewise through a live exclusive handle whose target has the
            // demanded member.
            ({
                let n = old(self).stack@.len();
                &&& n >= 2
                &&& old(self).next_gen != u64::MAX
                &&& spec_slot_value(old(self).stack@, old(self).stack@[n - 1].slot) is Some
                &&& (old(self).stack@[n - 2].slot matches Slot::Excl(p) && (p.base as int) < n - 2
                    && spec_place_value(
                    old(self).stack@,
                    p.base,
                    p.gen,
                    p.path@.push(fidx),
                ) is Some)
            }) ==> r is Ok,
    {
        let n = self.stack.len();
        if n < 2 {
            return Err(RunError::StackUnderflow);
        }
        if self.next_gen == u64::MAX {
            return Err(RunError::LimitExceeded);
        }
        // Classify the receiver before touching anything.
        let place = match &self.stack[n - 2].slot {
            Slot::Shared(_) => {
                return Err(RunError::MutateSharedValue);
            },
            Slot::Owned(_) => None,
            Slot::Excl(p) => Some(dup_place(p)),
        };
        let av = self.slot_value(n - 1)?;
        match place {
            None => {
                let v_ref = match &self.stack[n - 2].slot {
                    Slot::Owned(v) => v,
                    _ => {
                        return Err(RunError::NotAStruct);
                    },
                };
                let mut path: Vec<usize> = Vec::new();
                path.push(fidx);
                proof {
                    assert(path@ =~= seq![fidx]);
                    assert(path@.skip(0) =~= path@);
                    match v_ref.spec_members() {
                        Some(f) => {
                            if (fidx as int) < f@.len() {
                                assert(path@[0] == fidx);
                                assert(path@.drop_first() =~= Seq::<usize>::empty());
                                assert(spec_read_path(f@[fidx as int], Seq::empty()) is Some);
                                assert(spec_read_path(*v_ref, path@) is Some);
                            }
                        },
                        None => {},
                    }
                }
                let nv = match crate::value::write_path(v_ref, &path, 0, av) {
                    Some(x) => x,
                    None => {
                        return Err(if v_ref.members().is_some() {
                            RunError::BadPath
                        } else {
                            RunError::NotAStruct
                        });
                    },
                };
                self.stack.pop();
                self.stack.pop();
                let rr = self.push_slot(Slot::Owned(nv));
                proof {
                    assert(self.stack@.subrange(0, n - 2) =~= old(self).stack@.subrange(0, n - 2));
                }
                match rr {
                    Ok(()) => Ok(()),
                    Err(e) => Err(e),
                }
            },
            Some(pc) => {
                if pc.base >= n - 2 {
                    return Err(RunError::StaleHandle);
                }
                let mut path2 = dup_place(&pc).path;
                path2.push(fidx);
                self.write_place_value(pc.base, pc.gen, &path2, av)?;
                self.stack.pop();
                self.stack.pop();
                let rr = self.push_slot(Slot::Excl(pc));
                proof {
                    assert forall|i: int|
                        0 <= i < n - 2 && i != place->0.base as int implies self.stack@[i] == old(self).stack@[i] by {}
                }
                match rr {
                    Ok(()) => Ok(()),
                    Err(e) => Err(e),
                }
            },
        }
    }

    /// Pulls the next item from the iterator value at the top of the stack.
    /// When an item is there, the cursor advances in place, the item is
    /// pushed as an exclusive handle into the iterator, and `true` comes
    /// back; an exhausted iterator leaves the stack alone and yields
    /// `false`.  A plain list at the top becomes an iterator over its
    /// members first.
    pub fn exec_advance_iterator(&mut self) -> (r: Result<bool, RunError>)
        ensures
            r matches Ok(b) ==> old(self).stack@.len() > 0 && ({
                let n = old(self).stack@.len();
                let g = old(self).stack@[n - 1].gen;
                match old(self).stack@[n - 1].slot {
                    Slot::Owned(v) => match v {
                        Value::IterVal(f, c) => if (c as int) < f@.len() {
                            &&& b == true
                            &&& final(self).stack@.len() == n + 1
                            &&& final(self).stack@.subrange(0, n - 1) == old(self).stack@.subrange(0, n - 1)
                            &&& final(self).stack@[n - 1].gen == g
                            &&& final(self).stack@[n - 1].slot == Slot::Owned(
                                Value::IterVal(f, (c + 1) as usize),
                            )
                            &&& (final(self).stack@.last().slot matches Slot::Excl(p) && p.base
                                == n - 1 && p.gen == g && p.path@ == seq![c])
                        } else {
                            &&& b == false
                            &&& final(self).stack@ == old(self).stack@
                        },
                        Value::ListVal(f) => if f@.len() > 0 {
                            &&& b == true
                            &&& final(self).stack@.len() == n + 1
                            &&& final(self).stack@.subrange(0, n - 1) == old(self).stack@.subrange(0, n - 1)
                            &&& final(self).stack@[n - 1].gen == g
                            &&& final(self).stack@[n - 1].slot == Slot::Owned(
                                Value::IterVal(f, 1),
                            )
                            &&& (final(self).stack@.last().slot matches Slot::Excl(p) && p.base
                                == n - 1 && p.gen == g && p.path@ == seq![0usize])
                        } else {
                            &&& b == false
                            &&& final(self).stack@ == old(self).stack@.update(
                                n - 1,
                                StackCell { gen: g, slot: Slot::Owned(Value::IterVal(f, 0)) },
                            )
                        },
                        _ => false,
                    },
                    _ => false,
                }
            }),
            r is Err ==> final(self).stack@ == old(self).stack@,
            // Success is owed on an owned iterator at the top, as long as
            // neither counter guard is at its limit.
            ({
                let n = old(self).stack@.len();
                &&& n >= 1
                &&& (old(self).stack@[n - 1].slot matches Slot::Owned(v) && (
                v matches Value::IterVal(f, c) && ((c as int) < f@.len() ==> (c < usize::MAX && old(self).next_gen < u64::MAX))))
            }) ==> r is Ok,
    {
        let n = self.stack.len();
        if n == 0 {
            return Err(RunError::StackUnderflow);
        }
        let gen = self.stack[n - 1].gen;
        let (fields, cursor) = match &self.stack[n - 1].slot {
            Slot::Owned(v) => match v {
                Value::IterVal(f, c) => (f.duplicate(), *c),
                Value::ListVal(f) => (f.duplicate(), 0usize),
                _ => {
                    return Err(RunError::NotIterable);
                },
            },
            _ => {
                return Err(RunError::NotIterable);
            },
        };
        let has_item = fields.try_get(cursor).is_some();
        if !has_item {
            // Exhausted: a list that was never an iterator still becomes
            // one, so the loop exit sees a consistent value.
            let was_list = matches!(&self.stack[n - 1].slot, Slot::Owned(Value::ListVal(_)));
            if was_list {
                self.stack[n - 1] = StackCell {
                    gen,
                    slot: Slot::Owned(Value::IterVal(Box::new(fields), cursor)),
                };
            }
            proof {
                if !was_list {
                    assert(self.stack@ =~= old(self).stack@);
                }
            }
            return Ok(false);
        }
        if cursor == usize::MAX {
            return Err(RunError::LimitExceeded);
        }
        if self.next_gen == u64::MAX {
            return Err(RunError::LimitExceeded);
        }
        self.stack[n - 1] = StackCell {
            gen,
            slot: Slot::Owned(Value::IterVal(Box::new(fields), cursor + 1)),
        };
        let mut path: Vec<usize> = Vec::new();
        path.push(cursor);
        proof {
            assert(path@ =~= seq![cursor]);
        }
        let rr = self.push_slot(Slot::Excl(Place { base: n - 1, gen, path }));
        proof {
            assert(self.stack@.subrange(0, n - 1) =~= old(self).stack@.subrange(0, n - 1));
        }
        match rr {
            Ok(()) => Ok(true),
            Err(e) => Err(e),
        }
    }

    /// Pushes materialized query records as a fresh iterator: the bound
    /// value holds exactly the given records, in order, with the cursor at
    /// the first.
    pub fn push_query_records(&mut self, records: Vec<Value>) -> (r: Result<(), RunError>)
        ensures
            r is Ok ==> final(self).stack@.len() == old(self).stack@.len() + 1 && final(self).stack@.drop_last() == old(self).stack@ && final(self).stack@.last().gen == old(self).next_gen && (final(self).stack@.last().slot matches Slot::Owned(v) && (v
                matches Value::IterVal(f, c) && c == 0 && f@ == records@)),
            r is Err <==> old(self).next_gen == u64::MAX,
            r is Err ==> *final(self) == *old(self) && r == Err::<(), RunError>(
                RunError::LimitExceeded,
            ),
    {
        let f = Fields::from_vec(&records);
        let rr = self.push_slot(Slot::Owned(Value::IterVal(Box::new(f), 0)));
        proof {
            if rr is Ok {
                assert(self.stack@.drop_last() =~= old(self).stack@);
            }
        }
        rr
    }

    /// Binds the declared component accesses to the host's records and
    /// pushes the bound query as a fresh iterator over them.
    pub fn exec_bind_query<H: Host>(
        &mut self,
        accesses: &Vec<QueryDataType>,
        host: &mut H,
    ) -> (r: Result<(), RunError>)
        ensures
            r is Ok ==> final(self).stack@.len() == old(self).stack@.len() + 1 && final(self).stack@.drop_last() == old(self).stack@ && (final(self).stack@.last().slot
                matches Slot::Owned(v) && v matches Value::IterVal(f, c) && c == 0),
            r is Err <==> old(self).next_gen == u64::MAX,
            r is Err ==> final(self).stack@ == old(self).stack@ && r == Err::<(), RunError>(
                RunError::LimitExceeded,
            ),
    {
        let records = host.run_query(accesses);
        self.push_query_records(records)
    }

    /// Pops one argument per declared parameter of the function table entry
    /// `handle`, routes each to the callee according to the parameter's
    /// declared access mode, invokes the host, writes exclusively borrowed
    /// arguments back, and pushes the result if the entry declares one.
    /// Whatever the host returns is checked against the declared signature.
    /// Routes the top entries of the stack, one per declared parameter of
    /// `def`, to the callee.  Nothing is popped or changed here; the handles
    /// that must receive write-backs after the call come back alongside the
    /// argument values.
    fn gather_args(&self, def: &FunctionDef, base_idx: usize) -> (r: Result<
        (Vec<Value>, Vec<Option<Place>>),
        RunError,
    >)
        requires
            base_idx + def.params@.len() == self.stack@.len(),
            self.stack@.len() <= usize::MAX,
        ensures
            r matches Ok(aw) ==> {
                &&& aw.0@.len() == def.params@.len()
                &&& aw.1@.len() == def.params@.len()
                &&& (forall|k: int|
                    0 <= k < def.params@.len() ==> spec_arg_routed(
                        self.stack@,
                        base_idx + k,
                        (#[trigger] def.params@[k]).1,
                        aw.0@[k],
                        aw.1@[k],
                    ))
            },
            r matches Err(e) ==> (e is ArgumentModeMismatch || e is BadSlot || e is StaleHandle
                || e is BadPath),
    {
        let arity = def.params.len();
        let mut args: Vec<Value> = Vec::new();
        let mut writebacks: Vec<Option<Place>> = Vec::new();
        let mut k: usize = 0;
        while k < arity
            invariant
                k <= arity,
                arity == def.params@.len(),
                base_idx + arity == self.stack@.len(),
                self.stack@.len() <= usize::MAX,
                args@.len() == k,
                writebacks@.len() == k,
                forall|k2: int|
                    0 <= k2 < k ==> spec_arg_routed(
                        self.stack@,
                        base_idx + k2,
                        (#[trigger] def.params@[k2]).1,
                        args@[k2],
                        writebacks@[k2],
                    ),
            decreases arity - k,
        {
            let (_ty, mode) = def.params[k];
            let idx = base_idx + k;
            match mode {
                AccessMode::Owned => {
                    match &self.stack[idx].slot {
                        Slot::Owned(v) => {
                            args.push(v.duplicate());
                            writebacks.push(None);
                        },
                        _ => {
                            return Err(RunError::ArgumentModeMismatch);
                        },
                    }
                },
                AccessMode::SharedRef => {
                    let v = self.slot_value(idx)?;
                    args.push(v);
                    writebacks.push(None);
                },
                AccessMode::ExclusiveRef => {
                    match &self.stack[idx].slot {
                        Slot::Owned(v) => {
                            // An owned value is lent as a transient borrow;
                            // its post-call state is dropped with it.
                            args.push(v.duplicate());
                            writebacks.push(None);
                        },
                        Slot::Excl(p) => {
                            let pd = dup_place(p);
                            let v = self.place_value(pd.base, pd.gen, &pd.path)?;
                            args.push(v);
                            writebacks.push(Some(pd));
                        },
                        Slot::Shared(_) => {
                            return Err(RunError::ArgumentModeMismatch);
                        },
                    }
                },
            }
            k += 1;
        }
        Ok((args, writebacks))
    }

    /// Applies one call's host outcome to the machine: the answer is checked
    /// against the declared signature, each exclusively borrowed argument's
    /// post-call value is written back through its remembered handle, the
    /// consumed arguments are popped, and the declared result — exactly the
    /// value the host returned — is pushed.
    pub fn apply_call_outcome(
        &mut self,
        def: &FunctionDef,
        writebacks: Vec<Option<Place>>,
        outcome: CallOutcome,
    ) -> (r: Result<(), RunError>)
        requires
            writebacks@.len() == def.params@.len(),
            def.params@.len() <= old(self).stack@.len(),
            forall|k: int|
                0 <= k < writebacks@.len() ==> match #[trigger] writebacks@[k] {
                    Some(p) => (old(self).stack@[old(self).stack@.len() - writebacks@.len()
                        + k].slot matches Slot::Excl(p0) && p0.base == p.base),
                    None => true,
                },
        ensures
            outcome.args_after@.len() != def.params@.len() ==> r == Err::<(), RunError>(
                RunError::CallOutcomeMismatch,
            ) && *final(self) == *old(self),
            r is Ok ==> outcome.args_after@.len() == def.params@.len() && ((def.ret is Some) <==> (
            outcome.ret is Some)),
            r matches Err(e) ==> (e is CallOutcomeMismatch || e is StaleHandle || e is BadPath
                || e is LimitExceeded),
            r is Ok ==> ({
                let arity = def.params@.len() as int;
                &&& final(self).stack@.len() == old(self).stack@.len() - arity + (
                if def.ret is Some {
                    1int
                } else {
                    0int
                })
                &&& (def.ret is Some ==> final(self).stack@.last().slot == Slot::Owned(
                    outcome.ret->0,
                ))
                &&& (forall|i: int|
                    0 <= i < old(self).stack@.len() - arity && !spec_excl_arg_roots_at(
                        old(self).stack@,
                        arity,
                        i,
                    ) ==> final(self).stack@[i] == old(self).stack@[i])
                &&& (forall|i: int|
                    0 <= i < old(self).stack@.len() - arity ==> (#[trigger] final(self).stack@[i]).gen
                        == old(self).stack@[i].gen && (old(self).stack@[i].slot is Owned ==> final(self).stack@[i].slot is Owned))
                // With pairwise-distinct write-back roots, every written
                // cell holds exactly its own argument's post-call value.
                &&& (spec_writeback_bases_distinct(writebacks@) ==> (forall|k: int|
                    0 <= k < writebacks@.len() ==> match #[trigger] writebacks@[k] {
                        Some(p) => (p.base as int) < old(self).stack@.len() - arity ==> (old(self).stack@[p.base as int].slot is Owned && (final(self).stack@[p.base as int].slot matches Slot::Owned(r2) && spec_wrote_path(
                            old(self).stack@[p.base as int].slot->Owned_0,
                            p.path@,
                            outcome.args_after@[k],
                            r2,
                        ))),
                        None => true,
                    }))
            }),
    {
        let arity = def.params.len();
        let ghost distinct = spec_writeback_bases_distinct(writebacks@);
        if outcome.args_after.len() != arity {
            return Err(RunError::CallOutcomeMismatch);
        }
        // Write exclusively borrowed arguments back through their places.
        let mut k: usize = 0;
        while k < arity
            invariant
                k <= arity,
                arity == def.params@.len(),
                arity <= old(self).stack@.len(),
                writebacks@.len() == arity,
                outcome.args_after@.len() == arity,
                self.stack@.len() == old(self).stack@.len(),
                self.next_gen == old(self).next_gen,
                distinct == spec_writeback_bases_distinct(writebacks@),
                forall|k2: int|
                    0 <= k2 < arity ==> match #[trigger] writebacks@[k2] {
                        Some(p) => (old(self).stack@[old(self).stack@.len() - arity + k2].slot
                            matches Slot::Excl(p0) && p0.base == p.base),
                        None => true,
                    },
                forall|i: int|
                    0 <= i < old(self).stack@.len() && !spec_excl_arg_roots_at(
                        old(self).stack@,
                        arity as int,
                        i,
                    ) ==> self.stack@[i] == old(self).stack@[i],
                forall|i: int|
                    0 <= i < old(self).stack@.len() ==> (#[trigger] self.stack@[i]).gen == old(self).stack@[i].gen && (old(self).stack@[i].slot is Owned ==> self.stack@[i].slot
                        is Owned),
                distinct ==> (forall|k2: int|
                    0 <= k2 < arity ==> match #[trigger] writebacks@[k2] {
                        Some(p) => if k2 < k {
                            (p.base as int) < old(self).stack@.len() ==> (old(self).stack@[p.base as int].slot is Owned && (self.stack@[p.base as int].slot
                                matches Slot::Owned(r2) && spec_wrote_path(
                                old(self).stack@[p.base as int].slot->Owned_0,
                                p.path@,
                                outcome.args_after@[k2],
                                r2,
                            )))
                        } else {
                            (p.base as int) < old(self).stack@.len()
                                ==> self.stack@[p.base as int] == old(self).stack@[p.base as int]
                        },
                        None => true,
                    }),
            decreases arity - k,
        {
            let ghost pre = self.stack@;
            match &writebacks[k] {
                Some(p) => {
                    let nv = outcome.args_after[k].duplicate();
                    let pd = dup_place(p);
                    self.write_place_value(pd.base, pd.gen, &pd.path, nv)?;
                    proof {
                        assert(spec_excl_arg_roots_at(
                            old(self).stack@,
                            arity as int,
                            pd.base as int,
                        ));
                        assert forall|i: int|
                            0 <= i < old(self).stack@.len() && !spec_excl_arg_roots_at(
                                old(self).stack@,
                                arity as int,
                                i,
                            ) implies self.stack@[i] == old(self).stack@[i] by {
                            assert(self.stack@[i] == pre[i]);
                        }
                        if distinct {
                            assert forall|k2: int| 0 <= k2 < arity implies match #[trigger] writebacks@[k2] {
                                Some(p2) => if k2 < k + 1 {
                                    (p2.base as int) < old(self).stack@.len() ==> (old(self).stack@[p2.base as int].slot is Owned && (
                                    self.stack@[p2.base as int].slot matches Slot::Owned(r2)
                                        && spec_wrote_path(
                                        old(self).stack@[p2.base as int].slot->Owned_0,
                                        p2.path@,
                                        outcome.args_after@[k2],
                                        r2,
                                    )))
                                } else {
                                    (p2.base as int) < old(self).stack@.len()
                                        ==> self.stack@[p2.base as int] == old(self).stack@[p2.base as int]
                                },
                                None => true,
                            } by {
                                match writebacks@[k2] {
                                    Some(p2) => {
                                        if k2 != k as int {
                                            let a = if k2 < k as int {
                                                k2
                                            } else {
                                                k as int
                                            };
                                            let b = if k2 < k as int {
                                                k as int
                                            } else {
                                                k2
                                            };
                                            assert(match (writebacks@[a], writebacks@[b]) {
                                                (Some(q1), Some(q2)) => q1.base != q2.base,
                                                _ => true,
                                            });
                                            assert(p2.base != pd.base);
                                            if (p2.base as int) < old(self).stack@.len() {
                                                assert(self.stack@[p2.base as int] == pre[p2.base as int]);
                                            }
                                        }
                                    },
                                    None => {},
                                }
                            }
                        }
                    }
                },
                None => {},
            }
            k += 1;
        }
        // The call consumes its arguments.
        let mut k: usize = 0;
        while k < arity
            invariant
                k <= arity,
                arity == writebacks@.len(),
                arity <= old(self).stack@.len(),
                outcome.args_after@.len() == arity,
                self.stack@.len() == old(self).stack@.len() - k,
                self.next_gen == old(self).next_gen,
                distinct == spec_writeback_bases_distinct(writebacks@),
                forall|i: int|
                    0 <= i < old(self).stack@.len() - k && !spec_excl_arg_roots_at(
                        old(self).stack@,
                        arity as int,
                        i,
                    ) ==> self.stack@[i] == old(self).stack@[i],
                forall|i: int|
                    0 <= i < old(self).stack@.len() - k ==> (#[trigger] self.stack@[i]).gen == old(self).stack@[i].gen && (old(self).stack@[i].slot is Owned ==> self.stack@[i].slot
                        is Owned),
                distinct ==> (forall|k2: int|
                    0 <= k2 < arity ==> match #[trigger] writebacks@[k2] {
                        Some(p) => (p.base as int) < old(self).stack@.len() - arity ==> (old(self).stack@[p.base as int].slot is Owned && (self.stack@[p.base as int].slot
                            matches Slot::Owned(r2) && spec_wrote_path(
                            old(self).stack@[p.base as int].slot->Owned_0,
                            p.path@,
                            outcome.args_after@[k2],
                            r2,
                        ))),
                        None => true,
                    }),
            decreases arity - k,
        {
            self.stack.pop();
            k += 1;
        }
        // The result, if the signature declares one.
        if def.ret.is_some() {
            match outcome.ret {
                Some(v) => {
                    match self.push_slot(Slot::Owned(v)) {
                        Ok(()) => {},
                        Err(e) => {
                            return Err(e);
                        },
                    }
                },
                None => {
                    return Err(RunError::CallOutcomeMismatch);
                },
            }
        } else {
            if outcome.ret.is_some() {
                return Err(RunError::CallOutcomeMismatch);
            }
        }
        Ok(())
    }

    pub fn exec_call<H: Host>(
        &mut self,
        handle: usize,
        funcs: &FunctionRegistry,
        host: &mut H,
    ) -> (r: Result<(), RunError>)
        ensures
            r == Err::<(), RunError>(RunError::UnknownFunction { handle }) <==> handle
                >= funcs.functions@.len(),
            handle < funcs.functions@.len() ==> (r == Err::<(), RunError>(RunError::StackUnderflow)
                <==> old(self).stack@.len() < funcs.functions@[handle as int].params@.len()),
            r is Ok ==> ({
                let arity = funcs.functions@[handle as int].params@.len();
                let has_ret = funcs.functions@[handle as int].ret is Some;
                &&& old(self).stack@.len() >= arity
                &&& final(self).stack@.len() == old(self).stack@.len() - arity + (
                if has_ret {
                    1int
                } else {
                    0int
                })
                &&& (has_ret ==> final(self).stack@.last().slot is Owned)
                // Everything below the consumed arguments survives the call
                // untouched, except cells an exclusively borrowed argument
                // roots in, which receive the host's write-backs.
                &&& (forall|i: int|
                    0 <= i < old(self).stack@.len() - arity && !spec_excl_arg_roots_at(
                        old(self).stack@,
                        arity as int,
                        i,
                    ) ==> final(self).stack@[i] == old(self).stack@[i])
                // A written-back cell keeps its generation and stays owned:
                // exclusive borrows return to where they were taken.
                &&& (forall|i: int|
                    0 <= i < old(self).stack@.len() - arity ==> (#[trigger] final(self).stack@[i]).gen
                        == old(self).stack@[i].gen && (old(self).stack@[i].slot is Owned ==> final(self).stack@[i].slot is Owned))
            }),
    {
        let def = match funcs.get(handle) {
            Some(d) => d,
            None => {
                return Err(RunError::UnknownFunction { handle });
            },
        };
        let arity = def.params.len();
        if self.stack.len() < arity {
            return Err(RunError::StackUnderflow);
        }
        if self.next_gen == u64::MAX {
            return Err(RunError::LimitExceeded);
        }
        let base_idx = self.stack.len() - arity;
        // Route every argument to its declared mode before anything is
        // popped, remembering which places must receive write-backs.
        let (args, writebacks) = match self.gather_args(def, base_idx) {
            Ok(aw) => aw,
            Err(e) => {
                return Err(e);
            },
        };
        let ghost argviews = args@;
        proof {
            assert forall|k2: int| 0 <= k2 < arity implies match #[trigger] writebacks@[k2] {
                Some(p) => (old(self).stack@[old(self).stack@.len() - arity + k2].slot
                    matches Slot::Excl(p0) && p0.base == p.base),
                None => true,
            } by {
                assert(spec_arg_routed(
                    self.stack@,
                    base_idx + k2,
                    def.params@[k2].1,
                    argviews[k2],
                    writebacks@[k2],
                ));
            }
        }
        let outcome = host.invoke(handle, args);
        self.apply_call_outcome(def, writebacks, outcome)
    }

    /// Executes the instruction at `pc` and returns where execution
    /// continues: the next instruction, a jump target, or past the skipped
    /// exit branch when an iterator yields.
    pub fn step<H: Host>(
        &mut self,
        code: &Vec<Bytecode>,
        pc: usize,
        funcs: &FunctionRegistry,
        host: &mut H,
    ) -> (r: Result<usize, RunError>)
        requires
            pc < code@.len(),
            code@.len() < usize::MAX,
        ensures
            r matches Ok(p2) ==> (match code@[pc as int] {
                Bytecode::Jump(t) => p2 == t && t <= code@.len(),
                Bytecode::AdvanceIterator => p2 == pc + 1 || p2 == pc + 2,
                _ => p2 == pc + 1,
            }),
            // A push can only be refused by the generation guard.
            (code@[pc as int] is PushLiteral && old(self).next_gen < u64::MAX) ==> r is Ok,
            // The stack effect per instruction, mirroring the contracts of
            // the single-instruction operations the step dispatches to.
            r is Ok ==> (match code@[pc as int] {
                Bytecode::Pop => old(self).stack@.len() > 0 && final(self).stack@ == old(self).stack@.drop_last(),
                Bytecode::PushLiteral(v) => final(self).stack@ == old(self).stack@.push(
                    StackCell { gen: old(self).next_gen, slot: Slot::Owned(v) },
                ) && final(self).next_gen == old(self).next_gen + 1,
                Bytecode::Duplicate(s) => s < old(self).stack@.len() && final(self).stack@.len()
                    == old(self).stack@.len() + 1 && final(self).stack@.drop_last() == old(self).stack@,
                Bytecode::FieldClone(s, f) => (spec_field_of(old(self).stack@, s, f) matches Some(
                    fv,
                ) && final(self).stack@ == old(self).stack@.push(
                    StackCell { gen: old(self).next_gen, slot: Slot::Owned(fv) },
                )),
                Bytecode::FieldRef(s, f) => spec_field_of(old(self).stack@, s, f) is Some && final(self).stack@.len() == old(self).stack@.len() + 1 && final(self).stack@.drop_last()
                    == old(self).stack@ && (final(self).stack@.last().slot matches Slot::Shared(p)
                    && spec_handle_extends(old(self).stack@, s, f, p)),
                Bytecode::FieldMutRef(s, f) => spec_field_of(old(self).stack@, s, f) is Some
                    && final(self).stack@.len() == old(self).stack@.len() + 1 && final(self).stack@.drop_last() == old(self).stack@ && (final(self).stack@.last().slot
                    matches Slot::Excl(p) && spec_handle_extends(old(self).stack@, s, f, p)),
                Bytecode::ExplodeList(n) => (spec_top_list(old(self).stack@) matches Some(m)
                    && m.len() == n && final(self).stack@.len() == old(self).stack@.len() - 1 + n),
                Bytecode::AssembleApply(_) => old(self).stack@.len() >= 2 && final(self).stack@.len() == old(self).stack@.len() - 1,
                Bytecode::Call(h) => h < funcs.functions@.len() && old(self).stack@.len()
                    >= funcs.functions@[h as int].params@.len() && final(self).stack@.len() == old(self).stack@.len() - funcs.functions@[h as int].params@.len() + (
                if funcs.functions@[h as int].ret is Some {
                    1int
                } else {
                    0int
                }),
                Bytecode::AdvanceIterator => old(self).stack@.len() > 0,
                Bytecode::Jump(_) => *final(self) == *old(self),
                Bytecode::BindQuery(_) => final(self).stack@.len() == old(self).stack@.len() + 1
                    && final(self).stack@.drop_last() == old(self).stack@ && (final(self).stack@.last().slot matches Slot::Owned(v) && v matches Value::IterVal(f, c) && c
                    == 0),
                Bytecode::SlotClone(sl) => sl < old(self).stack@.len() && final(self).stack@.len()
                    == old(self).stack@.len() + 1 && final(self).stack@.drop_last() == old(self).stack@,
                Bytecode::SlotRef(sl) => sl < old(self).stack@.len() && final(self).stack@.len()
                    == old(self).stack@.len() + 1 && final(self).stack@.drop_last() == old(self).stack@
                    && (final(self).stack@.last().slot matches Slot::Shared(p)
                    && spec_whole_handle(old(self).stack@, sl, p)),
                Bytecode::SlotMutRef(sl) => sl < old(self).stack@.len() && final(self).stack@.len()
                    == old(self).stack@.len() + 1 && final(self).stack@.drop_last() == old(self).stack@
                    && (final(self).stack@.last().slot matches Slot::Excl(p)
                    && spec_whole_handle(old(self).stack@, sl, p)),
                Bytecode::Apply => old(self).stack@.len() >= 2 && final(self).stack@.len() == old(self).stack@.len() - 2,
            }),
    {
        match &code[pc] {
            Bytecode::Pop => {
                self.exec_pop()?;
                Ok(pc + 1)
            },
            Bytecode::PushLiteral(v) => {
                self.exec_push_literal(v.duplicate())?;
                Ok(pc + 1)
            },
            Bytecode::Duplicate(s) => {
                self.exec_duplicate(*s)?;
                Ok(pc + 1)
            },
            Bytecode::FieldClone(s, f) => {
                self.exec_field_clone(*s, *f)?;
                Ok(pc + 1)
            },
            Bytecode::FieldRef(s, f) => {
                self.exec_field_ref(*s, *f)?;
                Ok(pc + 1)
            },
            Bytecode::FieldMutRef(s, f) => {
                self.exec_field_mut_ref(*s, *f)?;
                Ok(pc + 1)
            },
            Bytecode::ExplodeList(n) => {
                self.exec_explode(*n)?;
                Ok(pc + 1)
            },
            Bytecode::AssembleApply(f) => {
                self.exec_assemble_apply(*f)?;
                Ok(pc + 1)
            },
            Bytecode::Call(h) => {
                self.exec_call(*h, funcs, host)?;
                Ok(pc + 1)
            },
            Bytecode::AdvanceIterator => {
                let yielded = self.exec_advance_iterator()?;
                if yielded {
                    Ok(pc + 2)
                } else {
                    Ok(pc + 1)
                }
            },
            Bytecode::Jump(t) => {
                if *t > code.len() {
                    Err(RunError::BadJumpTarget { target: *t })
                } else {
                    Ok(*t)
                }
            },
            Bytecode::BindQuery(q) => {
                self.exec_bind_query(q, host)?;
                Ok(pc + 1)
            },
            Bytecode::SlotClone(sl) => {
                self.exec_slot_clone(*sl)?;
                Ok(pc + 1)
            },
            Bytecode::SlotRef(sl) => {
                self.exec_slot_ref(*sl)?;
                Ok(pc + 1)
            },
            Bytecode::SlotMutRef(sl) => {
                self.exec_slot_mut_ref(*sl)?;
                Ok(pc + 1)
            },
            Bytecode::Apply => {
                self.exec_apply()?;
                Ok(pc + 1)
            },
        }
    }

    /// Runs the program to completion against the host: a single pass over
    /// the instruction vector, loops realized purely by jumps.  `fuel`
    /// bounds the number of executed instructions, guarding against
    /// instruction streams whose jumps never fall off the end; every other
    /// failure is one of the checked per-instruction errors.
    pub fn run<H: Host>(
        &mut self,
        code: &Vec<Bytecode>,
        funcs: &FunctionRegistry,
        host: &mut H,
        fuel: u64,
    ) -> (r: Result<(), RunError>)
        ensures
            code@.len() == 0 ==> r is Ok && *final(self) == *old(self),
            // A program of pushes alone is owed completion, one new owned
            // value per instruction.
            ({
                &&& (forall|i: int| 0 <= i < code@.len() ==> (#[trigger] code@[i]) is PushLiteral)
                &&& code@.len() < usize::MAX
                &&& fuel >= code@.len()
                &&& old(self).next_gen + code@.len() <= u64::MAX
            }) ==> (r is Ok && final(self).stack@.len() == old(self).stack@.len() + code@.len()
                && (forall|i: int|
                0 <= i < code@.len() ==> ((#[trigger] code@[i]) matches Bytecode::PushLiteral(v)
                    ==> final(self).stack@[old(self).stack@.len() + i].slot == Slot::Owned(v)
                    && final(self).stack@[old(self).stack@.len() + i].gen == old(self).next_gen
                    + i))),
    {
        if code.len() >= usize::MAX {
            return Err(RunError::LimitExceeded);
        }
        let ghost push_only = (forall|i: int|
            0 <= i < code@.len() ==> (#[trigger] code@[i]) is PushLiteral) && fuel >= code@.len()
            && old(self).next_gen + code@.len() <= u64::MAX;
        let mut pc: usize = 0;
        let mut steps: u64 = fuel;
        while pc < code.len()
            invariant
                code@.len() < usize::MAX,
                code@.len() == 0 ==> (pc == 0 && *self == *old(self)),
                push_only == ((forall|i: int|
                    0 <= i < code@.len() ==> (#[trigger] code@[i]) is PushLiteral) && fuel
                    >= code@.len() && old(self).next_gen + code@.len() <= u64::MAX),
                push_only ==> {
                    &&& pc <= code@.len()
                    &&& steps == fuel - pc
                    &&& self.stack@.len() == old(self).stack@.len() + pc
                    &&& self.next_gen == old(self).next_gen + pc
                    &&& (forall|i: int|
                        0 <= i < pc ==> ((#[trigger] code@[i]) matches Bytecode::PushLiteral(v)
                            ==> self.stack@[old(self).stack@.len() + i].slot == Slot::Owned(v)
                            && self.stack@[old(self).stack@.len() + i].gen == old(self).next_gen
                            + i))
                },
            decreases steps,
        {
            if steps == 0 {
                return Err(RunError::LimitExceeded);
            }
            steps = steps - 1;
            pc = self.step(code, pc, funcs, host)?;
        }
        Ok(())
    }
}

/// The pushed handle `p2` covers the whole value the entry at `slot` stands
/// for: it roots at `slot` itself when that entry is owned, and is a copy of
/// the entry's own handle otherwise.
pub open spec fn spec_whole_handle(stack: Seq<StackCell>, slot: usize, p2: Place) -> bool {
    match stack[slot as int].slot {
        Slot::Owned(_) => p2.base == slot && p2.gen == stack[slot as int].gen && p2.path@
            == Seq::<usize>::empty(),
        Slot::Shared(p) => p2.base == p.base && p2.gen == p.gen && p2.path@ == p.path@,
        Slot::Excl(p) => p2.base == p.base && p2.gen == p.gen && p2.path@ == p.path@,
    }
}

/// The pushed handle `p2` designates the member `fidx` of what the entry at
/// `slot` stood for: it roots at `slot` itself when that entry is owned, and
/// extends the entry's own handle by one step otherwise.
pub open spec fn spec_handle_extends(
    stack: Seq<StackCell>,
    slot: usize,
    fidx: usize,
    p2: Place,
) -> bool {
    match stack[slot as int].slot {
        Slot::Owned(_) => p2.base == slot && p2.gen == stack[slot as int].gen && p2.path@
            == seq![fidx] && spec_place_value(stack, p2.base, p2.gen, p2.path@) == spec_field_of(
            stack,
            slot,
            fidx,
        ),
        Slot::Shared(p) => p2.base == p.base && p2.gen == p.gen && p2.path@ == p.path@.push(fidx)
            && spec_place_value(stack, p2.base, p2.gen, p2.path@) == spec_field_of(
            stack,
            slot,
            fidx,
        ),
        Slot::Excl(p) => p2.base == p.base && p2.gen == p.gen && p2.path@ == p.path@.push(fidx)
            && spec_place_value(stack, p2.base, p2.gen, p2.path@) == spec_field_of(
            stack,
            slot,
            fidx,
        ),
    }
}

/// An exact copy of a handle.
fn dup_place(p: &Place) -> (r: Place)
    ensures
        r.base == p.base,
        r.gen == p.gen,
        r.path@ == p.path@,
{
    let mut path: Vec<usize> = Vec::new();
    let mut i: usize = 0;
    while i < p.path.len()
        invariant
            i <= p.path@.len(),
            path@ == p.path@.take(i as int),
        decreases p.path@.len() - i,
    {
        path.push(p.path[i]);
        proof {
            assert(path@ =~= p.path@.take(i as int + 1));
        }
        i += 1;
    }
    proof {
        assert(p.path@.take(p.path@.len() as int) =~= p.path@);
    }
    Place { base: p.base, gen: p.gen, path }
}

} // verus!
