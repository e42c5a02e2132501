//! The call stack of return addresses, kept in a `SmallVec` that holds up to
//! [`STACK_DEPTH`](crate::constants::STACK_DEPTH) entries inline.
use smallvec::SmallVec;
use vstd::prelude::*;

verus! {

/// A call stack of return addresses. Verus cannot declare `SmallVec` itself (its `Array`
/// bound is refused), so the vector sits in a private field and every operation goes
/// through the wrappers below.
#[verifier::external_body]
pub struct CallStack {
    items: SmallVec<[usize; 16]>,
}

/// The return addresses held by a call stack, oldest first.
pub uninterp spec fn stack_items(s: CallStack) -> Seq<usize>;

impl CallStack {
    /// Relies on `SmallVec::new`: the new vector is empty.
    #[verifier::external_body]
    pub(crate) fn new() -> (r: CallStack)
        ensures
            stack_items(r) == Seq::<usize>::empty(),
    {
        CallStack { items: SmallVec::new() }
    }

    /// Relies on `SmallVec::len`: the number of elements stored.
    #[verifier::external_body]
    pub(crate) fn len(&self) -> (r: usize)
        ensures
            r == stack_items(*self).len(),
    {
        self.items.len()
    }

    /// Relies on `SmallVec::push`: the value is appended at the end.
    #[verifier::external_body]
    pub(crate) fn push(&mut self, value: usize)
        requires
            stack_items(*old(self)).len() < 16,
        ensures
            stack_items(*final(self)) == stack_items(*old(self)).push(value),
    {
        self.items.push(value)
    }

    /// Relies on `SmallVec::pop`: removes and returns the last element, or `None` when empty.
    #[verifier::external_body]
    pub(crate) fn pop(&mut self) -> (r: Option<usize>)
        ensures
            stack_items(*old(self)).len() == 0 ==> r is None && stack_items(*final(self))
                == stack_items(*old(self)),
            stack_items(*old(self)).len() > 0 ==> r == Some(stack_items(*old(self)).last())
                && stack_items(*final(self)) == stack_items(*old(self)).drop_last(),
    {
        self.items.pop()
    }
}

} // verus!
