//! The stack of panels the interface shows; the top one is drawn and gets
//! the input.
pub mod log;
pub mod main;

use vstd::prelude::*;

pub use log::Log;
pub use main::Main;

verus! {

/// A stack of panels that is never empty: it has a bottom panel and any
/// number of panels above it.
#[derive(Debug)]
pub struct Stack<P> {
    bottom: P,
    above: Vec<P>,
}

impl<P> Stack<P> {
    /// The panels, bottom first.
    pub closed spec fn view(self) -> Seq<P> {
        seq![self.bottom] + self.above@
    }

    /// A stack holding only `current`.
    pub fn new(current: P) -> (r: Self)
        ensures
            r.view() == seq![current],
    {
        let r = Stack { bottom: current, above: Vec::new() };
        assert(r.view() =~= seq![current]);
        r
    }

    /// Remove the top panel, unless it is the only one.
    pub fn pop(&mut self)
        ensures
            old(self).view().len() <= 1 ==> final(self).view() == old(self).view(),
            old(self).view().len() > 1 ==> final(self).view() == old(self).view().drop_last(),
    {
        if self.above.len() == 0 {
            return;
        }
        self.above.pop();
        assert(self.view() =~= old(self).view().drop_last());
    }

    /// Put `panel` on top.
    pub fn push(&mut self, panel: P)
        ensures
            final(self).view() == old(self).view().push(panel),
    {
        self.above.push(panel);
        assert(self.view() =~= old(self).view().push(panel));
    }

    /// The top panel.
    pub fn current(&mut self) -> (r: &mut P)
        ensures
            *r == old(self).view().last(),
            final(self).view() == old(self).view().update(
                old(self).view().len() - 1,
                *final(r),
            ),
    {
        let n = self.above.len();
        if n == 0 {
            &mut self.bottom
        } else {
            &mut self.above[n - 1]
        }
    }
}

/// A stack always has a panel to show: it starts with one, and neither
/// `push` nor `pop` can leave it empty.
pub proof fn lemma_stack_never_empty<P>(s: Stack<P>)
    ensures
        s.view().len() >= 1,
{
}

/// Popping a panel just pushed gives back the stack as it was: after `push`
/// the stack holds more than one panel, so `pop` removes the last.
pub proof fn lemma_push_then_pop<P>(s: Stack<P>, panel: P)
    ensures
        s.view().push(panel).len() > 1,
        s.view().push(panel).drop_last() == s.view(),
{
    assert(s.view().push(panel).drop_last() =~= s.view());
}

} // verus!
