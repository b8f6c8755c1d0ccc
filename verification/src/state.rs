//! The working state of one compile pass, and how it is allowed to evolve.

use crate::bytecode::{Bytecode, spec_targets_in_bounds};
use crate::compiler::CompileError;
use crate::scope_map::ScopeMap;
use vstd::prelude::*;

verus! {

/// The working state of one compile pass: the instruction buffer, the
/// port-to-slot memoization table, and the next free stack slot.
pub struct CompileState {
    pub bytecode: Vec<Bytecode>,
    pub scope_map: ScopeMap,
    pub stack_ptr: usize,
}

/// The instruction stream only ever grows and keeps what was already
/// emitted; the scope map only ever gains entries; the stack pointer never
/// retreats below where the step found it.
pub open spec fn spec_state_evolves(pre: CompileState, post: CompileState) -> bool {
    &&& post.wf()
    &&& post.bytecode@.len() >= pre.bytecode@.len()
    &&& post.bytecode@.subrange(0, pre.bytecode@.len() as int) == pre.bytecode@
    &&& pre.scope_map@.submap_of(post.scope_map@)
    &&& post.stack_ptr >= pre.stack_ptr
}

/// Evolution steps chain.
pub broadcast proof fn lemma_evolves_trans(a: CompileState, b: CompileState, c: CompileState)
    requires
        #[trigger] spec_state_evolves(a, b),
        #[trigger] spec_state_evolves(b, c),
    ensures
        spec_state_evolves(a, c),
{
    assert forall|i: int| 0 <= i < a.bytecode@.len() implies c.bytecode@.subrange(
        0,
        a.bytecode@.len() as int,
    )[i] == a.bytecode@[i] by {
        assert(b.bytecode@[i] == b.bytecode@.subrange(0, a.bytecode@.len() as int)[i]);
        assert(c.bytecode@[i] == c.bytecode@.subrange(0, b.bytecode@.len() as int)[i]);
    }
    assert(c.bytecode@.subrange(0, a.bytecode@.len() as int) =~= a.bytecode@);
    assert forall|k: (usize, usize)| a.scope_map@.dom().contains(k) implies #[trigger] c.scope_map@.dom().contains(
        k,
    ) && c.scope_map@[k] == a.scope_map@[k] by {
        assert(b.scope_map@.dom().contains(k));
    }
}

/// A state evolves into itself.
pub proof fn lemma_evolves_refl(a: CompileState)
    requires
        a.wf(),
    ensures
        spec_state_evolves(a, a),
{
    assert(a.bytecode@.subrange(0, a.bytecode@.len() as int) =~= a.bytecode@);
}

impl CompileState {
    pub open spec fn wf(&self) -> bool {
        self.scope_map.wf()
    }

    pub fn new() -> (r: CompileState)
        ensures
            r.wf(),
            r.bytecode@.len() == 0,
            r.scope_map@ == Map::<(usize, usize), usize>::empty(),
            r.stack_ptr == 0,
    {
        CompileState { bytecode: Vec::new(), scope_map: ScopeMap::new(), stack_ptr: 0 }
    }

    /// Appends one instruction.
    pub(crate) fn emit(&mut self, instr: Bytecode)
        requires
            old(self).wf(),
            spec_targets_in_bounds(old(self).bytecode@, old(self).bytecode@.len() as int),
            instr matches Bytecode::Jump(t) ==> t <= old(self).bytecode@.len() + 1,
        ensures
            final(self).scope_map == old(self).scope_map,
            final(self).stack_ptr == old(self).stack_ptr,
            final(self).bytecode@ == old(self).bytecode@.push(instr),
            spec_state_evolves(*old(self), *final(self)),
            spec_targets_in_bounds(final(self).bytecode@, final(self).bytecode@.len() as int),
    {
        self.bytecode.push(instr);
        proof {
            assert(self.bytecode@.subrange(0, old(self).bytecode@.len() as int) =~= old(
                self,
            ).bytecode@);
            assert forall|i: int|
                0 <= i < self.bytecode@.len() implies ((#[trigger] self.bytecode@[i]) matches Bytecode::Jump(
                t,
            ) ==> t <= self.bytecode@.len() as int) by {
                if i < old(self).bytecode@.len() {
                    assert(self.bytecode@[i] == old(self).bytecode@[i]);
                }
            }
        }
    }

    /// Memoizes a slot for an output port.
    pub(crate) fn book(&mut self, node: usize, port: usize, slot: usize)
        requires
            old(self).wf(),
            !old(self).scope_map@.contains_key((node, port)),
        ensures
            final(self).bytecode == old(self).bytecode,
            final(self).stack_ptr == old(self).stack_ptr,
            final(self).scope_map@ == old(self).scope_map@.insert((node, port), slot),
            final(self).wf(),
            spec_state_evolves(*old(self), *final(self)),
    {
        self.scope_map.insert(node, port, slot);
        proof {
            assert(self.bytecode@.subrange(0, old(self).bytecode@.len() as int) =~= old(
                self,
            ).bytecode@);
            assert(old(self).scope_map@.submap_of(self.scope_map@));
        }
    }

    /// Advances the stack pointer past one newly occupied slot.
    pub(crate) fn bump(&mut self) -> (r: Result<(), CompileError>)
        ensures
            final(self).bytecode == old(self).bytecode,
            final(self).scope_map == old(self).scope_map,
            final(self).stack_ptr >= old(self).stack_ptr,
            old(self).wf() ==> spec_state_evolves(*old(self), *final(self)),
            r is Ok ==> final(self).stack_ptr == old(self).stack_ptr + 1,
            r is Err ==> *final(self) == *old(self) && old(self).stack_ptr == usize::MAX && r
                == Err::<(), CompileError>(CompileError::LimitExceeded),
    {
        proof {
            if old(self).wf() {
                lemma_evolves_refl(*old(self));
            }
        }
        if self.stack_ptr == usize::MAX {
            Err(CompileError::LimitExceeded)
        } else {
            self.stack_ptr = self.stack_ptr + 1;
            proof {
                if old(self).wf() {
                    assert(self.bytecode@.subrange(0, old(self).bytecode@.len() as int) =~= old(
                        self,
                    ).bytecode@);
                }
            }
            Ok(())
        }
    }
}

} // verus!
