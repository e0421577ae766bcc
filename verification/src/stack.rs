//! The call stack: a growable sequence of return addresses, stored as
//! byte pairs.
//!
//! The stack is held in a `tinyvec::TinyVec` with an inline capacity
//! of 16 entries, the canonical CHIP-8 stack depth; deeper nesting
//! spills to the heap instead of wrapping or dropping entries. The
//! vector's type cannot be declared to the verifier directly (its type
//! parameter carries the crate's own `Array` trait bound), so it is
//! held opaquely in this wrapper struct and described through
//! [`stack_entries`].

use vstd::prelude::*;

verus! {

/// The CHIP-8 call stack.
#[verifier::external_body]
pub struct CallStack {
    inner: tinyvec::TinyVec<[(u8, u8); 16]>,
}

/// The entries of a call stack, bottom first.
pub uninterp spec fn stack_entries(s: CallStack) -> Seq<(u8, u8)>;

impl CallStack {
    /// Relies on tinyvec::TinyVec::new: it returns an empty vector
    /// (the inline variant of a default, hence empty, array vector).
    #[verifier::external_body]
    pub fn new() -> (r: CallStack)
        ensures
            stack_entries(r) == Seq::<(u8, u8)>::empty(),
    {
        CallStack { inner: tinyvec::TinyVec::new() }
    }
}

} // verus!
