//! Binding the attached interpreter to its owner: an explicit cell that
//! holds the current interpreter instance, bound to exactly one thread.
//! The debug check fails loudly on any access from another thread; an
//! optimized build skips the check, which is why the binding is a
//! correctness contract and not a recoverable condition.

use vstd::prelude::*;

use crate::interp::LuaState;

verus! {

/// Shapes that can be bound to a raw interpreter entry point. The binding
/// itself needs the platform's loader and raw calls, so it lives with the
/// caller; implementations are written there, on wrappers of the concrete
/// pointer types the platform uses.
pub trait CLuaFunction: Copy {

}

/// The process's binding of the attached interpreter: set once at attach
/// time, owned by the first thread that touches it afterwards.
pub struct LuaStateCell {
    current: Option<LuaState>,
    bound_thread: Option<u64>,
}

impl LuaStateCell {
    /// Whether an interpreter has been bound.
    pub closed spec fn is_set(&self) -> bool {
        self.current is Some
    }

    /// The bound interpreter's model.
    pub closed spec fn state_view(&self) -> crate::interp::SpecInterp {
        self.current->0@
    }

    /// The thread the binding is owned by, once one has claimed it.
    pub closed spec fn spec_bound_thread(&self) -> Option<u64> {
        self.bound_thread
    }

    /// An empty cell: nothing bound, no owning thread.
    pub fn new() -> (r: LuaStateCell)
        ensures
            !r.is_set(),
            r.spec_bound_thread() is None,
    {
        LuaStateCell { current: None, bound_thread: None }
    }

    /// The bound interpreter, for the protocol operations.
    pub fn state(&self) -> (r: &LuaState)
        requires
            self.is_set(),
        ensures
            r@ == self.state_view(),
    {
        match &self.current {
            Some(s) => s,
            None => unreached(),
        }
    }

    /// The bound interpreter, mutably.
    pub fn state_mut(&mut self) -> (r: &mut LuaState)
        requires
            old(self).is_set(),
        ensures
            r@ == old(self).state_view(),
            final(self).is_set(),
            final(self).state_view() == final(r)@,
            final(self).spec_bound_thread() == old(self).spec_bound_thread(),
    {
        match &mut self.current {
            Some(s) => s,
            None => unreached(),
        }
    }

    /// The debug affinity check: fails when nothing is bound yet; the first
    /// thread to pass it becomes the binding's owner; every later access
    /// passes exactly when it comes from that thread.
    pub fn debug_assertions(&mut self, thread_id: u64) -> (r: bool)
        ensures
            final(self).is_set() == old(self).is_set(),
            final(self).is_set() ==> final(self).state_view() == old(self).state_view(),
            !old(self).is_set() ==> r == false && final(self).spec_bound_thread()
                == old(self).spec_bound_thread(),
            old(self).is_set() && old(self).spec_bound_thread() is None ==> r == true
                && final(self).spec_bound_thread() == Some(thread_id),
            old(self).is_set() ==> (old(self).spec_bound_thread() matches Some(t) ==> (r == (t
                == thread_id) && final(self).spec_bound_thread() == old(
                self,
            ).spec_bound_thread())),
    {
        if self.current.is_none() {
            return false;
        }
        match self.bound_thread {
            None => {
                self.bound_thread = Some(thread_id);
                true
            },
            Some(t) => t == thread_id,
        }
    }
}

/// Binds an interpreter instance as the current one. The attach entry point
/// calls this with the instance the host handed over, before anything else
/// touches the protocol.
pub fn __set_state__internal(cell: &mut LuaStateCell, state: LuaState)
    ensures
        final(cell).is_set(),
        final(cell).state_view() == state@,
        final(cell).spec_bound_thread() == old(cell).spec_bound_thread(),
{
    cell.current = Some(state);
}

} // verus!
