//! The stack of coordinate frames.
//!
//! The stack is never empty: its base starts out as the identity and cannot
//! be popped. A push duplicates the top frame, so that what is composed
//! afterwards is relative to the frame the caller was in.
use crate::error::ConfigurationError;
use crate::space::modtrix::{identity, product, Modtrix};
use vstd::prelude::*;

verus! {

/// A non-empty stack of transforms.
pub struct TransformStack {
    top: Modtrix,
    below: Vec<Modtrix>,
}

/// The stack after a push: the top frame once more on top.
pub open spec fn pushed(frames: Seq<Modtrix>) -> Seq<Modtrix> {
    frames.push(frames.last())
}

/// The stack after a pop, or `None` where only the base frame is left.
pub open spec fn popped(frames: Seq<Modtrix>) -> Option<Seq<Modtrix>> {
    if frames.len() <= 1 {
        None
    } else {
        Some(frames.drop_last())
    }
}

/// The stack after `m` has been composed onto its top frame from the
/// right.
pub open spec fn composed(frames: Seq<Modtrix>, m: Modtrix) -> Seq<Modtrix> {
    frames.drop_last().push(product(frames.last(), m))
}

/// A push followed by a pop leaves the stack, and so its top, as it was. A
/// pop of the base frame is refused, and no pop leaves the stack empty.
pub proof fn lemma_push_then_pop(frames: Seq<Modtrix>)
    requires
        frames.len() >= 1,
    ensures
        popped(pushed(frames)) == Some(frames),
        pushed(frames).last() == frames.last(),
        frames.len() == 1 ==> popped(frames).is_none(),
        popped(frames) matches Some(rest) ==> rest.len() >= 1,
{
    assert(pushed(frames).drop_last() =~= frames);
}

impl View for TransformStack {
    type V = Seq<Modtrix>;

    /// The frames from the base to the top.
    closed spec fn view(&self) -> Seq<Modtrix> {
        self.below@.push(self.top)
    }
}

impl TransformStack {
    /// No stack is empty.
    pub proof fn lemma_never_empty(&self)
        ensures
            self@.len() >= 1,
    {
    }

    /// The stack that holds the identity alone.
    pub fn new() -> (s: Self)
        ensures
            s@ == seq![identity()],
    {
        let s = TransformStack { top: Modtrix::ident(), below: Vec::new() };
        assert(s@ =~= seq![identity()]);
        s
    }

    /// The current frame.
    pub fn top(&self) -> (m: &Modtrix)
        ensures
            *m == self@.last(),
    {
        &self.top
    }

    /// Whether only the base frame is left.
    pub fn is_base(&self) -> (b: bool)
        ensures
            b == (self@.len() == 1),
    {
        self.below.len() == 0
    }

    /// Duplicates the top frame.
    pub fn push(&mut self)
        ensures
            final(self)@ == pushed(old(self)@),
    {
        self.below.push(self.top);
    }

    /// Drops the top frame. Fails, and changes nothing, where only the base
    /// frame is left.
    pub fn pop(&mut self) -> (r: Result<(), ConfigurationError>)
        ensures
            popped(old(self)@) matches Some(rest) ==> r.is_ok() && final(self)@ == rest,
            popped(old(self)@).is_none() ==> r == Err::<(), ConfigurationError>(
                ConfigurationError::StackUnderflow,
            ) && final(self)@ == old(self)@,
    {
        match self.below.pop() {
            Some(m) => {
                self.top = m;
                assert(final(self)@ =~= old(self)@.drop_last());
                Ok(())
            },
            None => Err(ConfigurationError::StackUnderflow),
        }
    }

    /// Composes `m` onto the top frame from the right: the top frame then
    /// applies `m` first and what it was before second.
    pub fn apply(&mut self, m: &Modtrix)
        ensures
            final(self)@ == composed(old(self)@, *m),
    {
        Modtrix::multr(&mut self.top, m);
        assert(final(self)@ =~= composed(old(self)@, *m));
    }

    /// Drops every frame and starts over from the identity.
    pub fn clear(&mut self)
        ensures
            final(self)@ == seq![identity()],
    {
        self.below.clear();
        self.top = Modtrix::ident();
        assert(final(self)@ =~= seq![identity()]);
    }
}

} // verus!
