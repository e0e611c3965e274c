//! The state of a transport built from an async function that is called
//! again and again with the state the previous call gave back.
use vstd::prelude::*;

verus! {

/// Between calls the state is held; during a call, the call's future.
#[derive(Debug)]
pub enum IteratorState<S, Fut> {
    Value(S),
    Future(Fut),
    Empty,
}

impl<S, Fut> IteratorState<S, Fut> {
    /// Takes the held state, leaving nothing, or gives `None` when no state
    /// is held.
    pub fn take_state(&mut self) -> (r: Option<S>)
        ensures
            match *old(self) {
                IteratorState::Value(s) => r == Some(s) && *final(self) is Empty,
                _ => r is None && *final(self) == *old(self),
            },
    {
        match self {
            IteratorState::Value(_) => {
                let mut taken = IteratorState::Empty;
                std::mem::swap(self, &mut taken);
                match taken {
                    IteratorState::Value(s) => Some(s),
                    _ => None,
                }
            },
            _ => None,
        }
    }

    /// The future of the call under way, if one is.
    pub fn get_future(&mut self) -> (r: Option<&mut Fut>)
        ensures
            match *old(self) {
                IteratorState::Future(f) => r matches Some(x) && *x == f
                    && *final(self) == IteratorState::<S, Fut>::Future(*final(x)),
                _ => r is None && *final(self) == *old(self),
            },
    {
        match self {
            IteratorState::Future(f) => Some(f),
            _ => None,
        }
    }
}

} // verus!
