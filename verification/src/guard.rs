//! The debug stack guard: records the stack depth when a logical operation
//! begins and checks it is unchanged when the operation ends, together with
//! the law that makes it sound — balanced push/pop activity, and only
//! balanced activity, leaves the depth unchanged.

use vstd::prelude::*;

use crate::interp::LuaState;
use crate::value::SpecValue;

verus! {

/// The depth recorded at the start of a guarded operation.
pub struct StackGuard {
    depth: usize,
}

impl StackGuard {
    /// The recorded depth.
    pub closed spec fn spec_depth(&self) -> int {
        self.depth as int
    }

    /// Records the current stack depth at the start of a logical operation.
    pub fn enter(lua: &LuaState) -> (g: StackGuard)
        requires
            lua.wf(),
        ensures
            g.spec_depth() == lua@.stack.len(),
    {
        let top = lua.get_top();
        StackGuard { depth: top as usize }
    }

    /// Whether the stack depth is back at the recorded value: the guarded
    /// operation kept the protocol's push/pop symmetry.
    pub fn check(&self, lua: &LuaState) -> (r: bool)
        requires
            lua.wf(),
        ensures
            r == (lua@.stack.len() == self.spec_depth()),
    {
        let top = lua.get_top();
        top as usize == self.depth
    }

    /// Like `check`, but on a mismatch hands back the readable stack
    /// listing a debug build prints before failing loudly.
    pub fn check_or_dump(&self, lua: &LuaState) -> (r: Result<(), Vec<String>>)
        requires
            lua.wf(),
        ensures
            match r {
                Ok(u) => lua@.stack.len() == self.spec_depth(),
                Err(lines) => lua@.stack.len() != self.spec_depth() && lines@.len()
                    == lua@.stack.len() + 2,
            },
    {
        if self.check(lua) {
            Ok(())
        } else {
            Err(lua.dump_stack())
        }
    }
}

/// One primitive stack movement of a guarded operation.
pub enum StackOp {
    Push(SpecValue),
    Pop,
}

/// The stack after a sequence of pushes and pops.
pub open spec fn apply_ops(s: Seq<SpecValue>, ops: Seq<StackOp>) -> Seq<SpecValue>
    decreases ops.len(),
{
    if ops.len() == 0 {
        s
    } else {
        let s2 = match ops[0] {
            StackOp::Push(v) => s.push(v),
            StackOp::Pop => s.drop_last(),
        };
        apply_ops(s2, ops.drop_first())
    }
}

/// A sequence of movements is valid when no pop lands on an empty stack.
pub open spec fn ops_valid(s: Seq<SpecValue>, ops: Seq<StackOp>) -> bool
    decreases ops.len(),
{
    if ops.len() == 0 {
        true
    } else {
        match ops[0] {
            StackOp::Push(v) => ops_valid(s.push(v), ops.drop_first()),
            StackOp::Pop => s.len() > 0 && ops_valid(s.drop_last(), ops.drop_first()),
        }
    }
}

/// How many of the movements push.
pub open spec fn push_count(ops: Seq<StackOp>) -> int
    decreases ops.len(),
{
    if ops.len() == 0 {
        0
    } else {
        (match ops[0] {
            StackOp::Push(v) => 1int,
            StackOp::Pop => 0int,
        }) + push_count(ops.drop_first())
    }
}

/// How many of the movements pop.
pub open spec fn pop_count(ops: Seq<StackOp>) -> int
    decreases ops.len(),
{
    if ops.len() == 0 {
        0
    } else {
        (match ops[0] {
            StackOp::Push(v) => 0int,
            StackOp::Pop => 1int,
        }) + pop_count(ops.drop_first())
    }
}

/// A valid sequence of movements changes the depth by exactly the push
/// count less the pop count.
pub proof fn lemma_apply_ops_len(s: Seq<SpecValue>, ops: Seq<StackOp>)
    requires
        ops_valid(s, ops),
    ensures
        apply_ops(s, ops).len() == s.len() + push_count(ops) - pop_count(ops),
    decreases ops.len(),
{
    if ops.len() > 0 {
        match ops[0] {
            StackOp::Push(v) => lemma_apply_ops_len(s.push(v), ops.drop_first()),
            StackOp::Pop => lemma_apply_ops_len(s.drop_last(), ops.drop_first()),
        }
    }
}

/// The stack-guard law: a valid sequence of pushes and pops leaves the
/// depth unchanged — so a guard taken before it does not fail — exactly
/// when its push and pop counts are equal. An unbalanced sequence always
/// moves the depth, so the guard always fails on it.
pub proof fn lemma_stack_guard_balanced(s: Seq<SpecValue>, ops: Seq<StackOp>)
    requires
        ops_valid(s, ops),
    ensures
        (apply_ops(s, ops).len() == s.len()) <==> (push_count(ops) == pop_count(ops)),
{
    lemma_apply_ops_len(s, ops);
}

} // verus!
