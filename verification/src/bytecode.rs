//! The instruction set the compiler emits and the machine interprets.

use crate::types::QueryDataType;
use crate::value::Value;
use vstd::prelude::*;

verus! {

/// One instruction of the linear program.  `slot` operands index the value
/// stack from its bottom; `target` operands index the instruction stream.
#[derive(Debug, PartialEq, Eq)]
pub enum Bytecode {
    /// Discard the top of the stack.
    Pop,
    /// Push an owned value.
    PushLiteral(Value),
    /// Push a mode-preserving copy of the value at `slot`.
    Duplicate(usize),
    /// Push an owned clone of the field at `field` of the value at `slot`.
    FieldClone(usize, usize),
    /// Push a shared reference to the field at `field` of the value at
    /// `slot`.
    FieldRef(usize, usize),
    /// Push an exclusive reference to the field at `field` of the value at
    /// `slot`.
    FieldMutRef(usize, usize),
    /// Pop a fixed-length list of exactly this length and push its elements
    /// individually, first element lowest.
    ExplodeList(usize),
    /// Pop an applier value and a receiver value, write the applier into the
    /// receiver's field at this index, and push the receiver back.
    AssembleApply(usize),
    /// Pop one argument per declared parameter of the function table entry
    /// with this handle, invoke it, and push the result if the entry declares
    /// one.
    Call(usize),
    /// Pull the next item from the iterator at the top of the stack.  When an
    /// item is pulled it is pushed as an exclusive reference and the
    /// instruction after this one is skipped; when the iterator is exhausted
    /// execution falls through to that instruction.
    AdvanceIterator,
    /// Unconditional control transfer to `target`.
    Jump(usize),
    /// Push an owned clone of the whole value the entry at `slot` stands
    /// for.
    SlotClone(usize),
    /// Push a shared handle to the whole value at `slot`.
    SlotRef(usize),
    /// Push an exclusive handle to the whole value at `slot`.
    SlotMutRef(usize),
    /// Pop an applier value and an exclusively held receiver handle, and
    /// write the applier as the receiver's whole new value.
    Apply,
    /// Bind the declared component accesses to the host's records and push
    /// the bound query as an iterable value.
    BindQuery(Vec<QueryDataType>),
}

/// Every jump target lies within the program (its end counts as within: a
/// jump there halts).
pub open spec fn spec_targets_in_bounds(code: Seq<Bytecode>, len: int) -> bool {
    forall|i: int|
        0 <= i < code.len() ==> ((#[trigger] code[i]) matches Bytecode::Jump(t) ==> t <= len)
}

} // verus!
