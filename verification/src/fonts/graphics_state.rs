//! The graphics state stack of content stream processing: `q` saves the
//! current state, `Q` restores the last saved one.
use vstd::prelude::*;

verus! {

/// A stack of saved graphics states over the current one. The state type
/// is the caller's; the stack only saves, restores and counts.
pub struct GraphicsStateStack<S> {
    stack: Vec<S>,
    current: S,
}

/// Whether `s` is a value that `S::default` gives.
pub open spec fn is_default<S: Default>(s: S) -> bool {
    call_ensures(S::default, (), s)
}

impl<S: Clone + Default> GraphicsStateStack<S> {
    /// The saved states, oldest first.
    pub closed spec fn saved(&self) -> Seq<S> {
        self.stack@
    }

    /// The current state.
    pub closed spec fn current_state(&self) -> S {
        self.current
    }

    /// An empty stack over a default state.
    pub fn new() -> (r: Self)
        ensures
            r.saved() == Seq::<S>::empty(),
            is_default(r.current_state()),
    {
        GraphicsStateStack { stack: Vec::new(), current: S::default() }
    }

    /// Saves a copy of the current state (`q`).
    pub fn save(&mut self)
        ensures
            final(self).saved().len() == old(self).saved().len() + 1,
            final(self).saved().drop_last() == old(self).saved(),
            vstd::pervasive::cloned(old(self).current_state(), final(self).saved().last()),
            final(self).current_state() == old(self).current_state(),
    {
        let c = self.current.clone();
        self.stack.push(c);
        assert(self.stack@.drop_last() =~= old(self).stack@);
    }

    /// Restores the last saved state (`Q`); with nothing saved, the
    /// state becomes a default one.
    pub fn restore(&mut self)
        ensures
            if old(self).saved().len() > 0 {
                &&& final(self).current_state() == old(self).saved().last()
                &&& final(self).saved() == old(self).saved().drop_last()
            } else {
                &&& final(self).saved() == Seq::<S>::empty()
                &&& is_default(final(self).current_state())
            },
    {
        match self.stack.pop() {
            Some(s) => {
                self.current = s;
            },
            None => {
                self.current = S::default();
            },
        }
    }

    /// The current state.
    pub fn current(&self) -> (r: &S)
        ensures
            *r == self.current_state(),
    {
        &self.current
    }

    /// The current state, to change it.
    pub fn current_mut(&mut self) -> (r: &mut S)
        ensures
            *r == old(self).current_state(),
            final(self).current_state() == *final(r),
            final(self).saved() == old(self).saved(),
    {
        &mut self.current
    }

    /// The number of saved states.
    pub fn depth(&self) -> (r: usize)
        ensures
            r == self.saved().len(),
    {
        self.stack.len()
    }
}

impl<S: Clone + Default> Default for GraphicsStateStack<S> {
    fn default() -> (r: Self)
        ensures
            r.saved() == Seq::<S>::empty(),
            is_default(r.current_state()),
    {
        Self::new()
    }
}

/// A restore right after a save brings back the state that was saved and
/// the saved states from before: given the saved states before a save
/// and the copy it pushed, the restore's outcome is that copy over those
/// states.
pub proof fn lemma_restore_undoes_save<S>(saved: Seq<S>, copy: S)
    ensures
        saved.push(copy).len() > 0,
        saved.push(copy).last() == copy,
        saved.push(copy).drop_last() == saved,
{
    assert(saved.push(copy).drop_last() =~= saved);
}

} // verus!
