//! Merging two streams by polling them in turn, starting each poll from the
//! side the previous poll did not start from; the merged stream ends as soon
//! as either side ends.
use vstd::prelude::*;

verus! {

/// Which stream to poll first.
#[derive(Debug, PartialEq, Eq, Copy, Clone, Hash, Structural)]
pub enum PollNext {
    /// Poll the first stream.
    Left,
    /// Poll the second stream.
    Right,
}

impl PollNext {
    pub open spec fn spec_other(self) -> PollNext {
        match self {
            PollNext::Left => PollNext::Right,
            PollNext::Right => PollNext::Left,
        }
    }

    /// Toggles the value and returns the old one.
    pub fn toggle(&mut self) -> (r: Self)
        ensures
            r == *old(self),
            *final(self) == old(self).spec_other(),
    {
        let old = *self;
        *self = self.other();
        old
    }

    /// The other side.
    pub fn other(self) -> (r: Self)
        ensures
            r == self.spec_other(),
    {
        match self {
            PollNext::Left => PollNext::Right,
            PollNext::Right => PollNext::Left,
        }
    }
}

/// What polling one side gave.
#[derive(Debug)]
pub enum SidePoll<T> {
    /// An item.
    Item(T),
    /// The side ended.
    Ended,
    /// Nothing yet.
    Pending,
}

/// What a poll of the merged stream does next.
#[derive(Debug)]
pub enum SelectStep<T> {
    /// The merged stream ended.
    End,
    /// Yield this item.
    Yield(T),
    /// Nothing yet.
    Pending,
    /// Poll this side.
    Poll(PollNext),
}

/// Two streams polled in turn.
pub struct UnfairSelect<S1, S2> {
    pub stream1: S1,
    pub stream2: S2,
    /// The side the next poll starts from.
    pub next: PollNext,
    /// One side has ended.
    pub finished: bool,
}

/// Merges two streams; the first poll starts from the first.
pub fn unfair_select<S1, S2>(stream1: S1, stream2: S2) -> (r: UnfairSelect<S1, S2>)
    ensures
        r.stream1 == stream1,
        r.stream2 == stream2,
        r.next == PollNext::Left,
        !r.finished,
{
    UnfairSelect { stream1, stream2, next: PollNext::Left, finished: false }
}

impl<S1, S2> UnfairSelect<S1, S2> {
    /// The underlying streams.
    pub fn get_ref(&self) -> (r: (&S1, &S2))
        ensures
            *r.0 == self.stream1,
            *r.1 == self.stream2,
    {
        (&self.stream1, &self.stream2)
    }

    /// The underlying streams, to change.
    pub fn get_mut(&mut self) -> (r: (&mut S1, &mut S2))
        ensures
            *r.0 == old(self).stream1,
            *r.1 == old(self).stream2,
            final(self).stream1 == *final(r.0),
            final(self).stream2 == *final(r.1),
            final(self).next == old(self).next,
            final(self).finished == old(self).finished,
    {
        (&mut self.stream1, &mut self.stream2)
    }

    /// The underlying streams, giving up the merge's state.
    pub fn into_inner(self) -> (r: (S1, S2))
        ensures
            r.0 == self.stream1,
            r.1 == self.stream2,
    {
        (self.stream1, self.stream2)
    }

    /// Whether the merged stream has ended.
    pub fn is_terminated(&self) -> (r: bool)
        ensures
            r == self.finished,
    {
        self.finished
    }

    /// Starts a poll of the merged stream: ends it when a side has ended,
    /// else polls the side whose turn it is; the turn passes either way.
    pub fn start_poll<T>(&mut self) -> (r: SelectStep<T>)
        ensures
            final(self).next == old(self).next.spec_other(),
            final(self).finished == old(self).finished,
            final(self).stream1 == old(self).stream1,
            final(self).stream2 == old(self).stream2,
            old(self).finished ==> r is End,
            !old(self).finished ==> r == SelectStep::<T>::Poll(old(self).next),
    {
        let side = self.next.toggle();
        if self.finished {
            SelectStep::End
        } else {
            SelectStep::Poll(side)
        }
    }

    /// Goes on after polling the first side: its item is yielded, its end
    /// ends the merge, and when it had nothing the other side is polled.
    pub fn after_first<T>(&mut self, side: PollNext, polled: SidePoll<T>) -> (r: SelectStep<T>)
        ensures
            final(self).next == old(self).next,
            final(self).stream1 == old(self).stream1,
            final(self).stream2 == old(self).stream2,
            match polled {
                SidePoll::Item(t) => r == SelectStep::Yield(t) && final(self).finished
                    == old(self).finished,
                SidePoll::Ended => r is End && final(self).finished,
                SidePoll::Pending => r == SelectStep::<T>::Poll(side.spec_other())
                    && final(self).finished == old(self).finished,
            },
    {
        match polled {
            SidePoll::Item(t) => SelectStep::Yield(t),
            SidePoll::Ended => {
                self.finished = true;
                SelectStep::End
            },
            SidePoll::Pending => SelectStep::Poll(side.other()),
        }
    }

    /// Finishes a poll after the second side: its end ends the merge.
    pub fn after_second<T>(&mut self, polled: SidePoll<T>) -> (r: SelectStep<T>)
        ensures
            final(self).next == old(self).next,
            final(self).stream1 == old(self).stream1,
            final(self).stream2 == old(self).stream2,
            match polled {
                SidePoll::Item(t) => r == SelectStep::Yield(t) && final(self).finished
                    == old(self).finished,
                SidePoll::Ended => r is End && final(self).finished,
                SidePoll::Pending => r is Pending && final(self).finished == old(self).finished,
            },
    {
        match polled {
            SidePoll::Item(t) => SelectStep::Yield(t),
            SidePoll::Ended => {
                self.finished = true;
                SelectStep::End
            },
            SidePoll::Pending => SelectStep::Pending,
        }
    }
}

/// Toggling twice gives back the side started from, so successive polls
/// start from alternating sides.
pub proof fn lemma_toggle_alternates(p: PollNext)
    ensures
        p.spec_other() != p,
        p.spec_other().spec_other() == p,
{
}

} // verus!
