//! An unfair lock over a sink shared by the multiplexor and its streams.
//!
//! The shared state holds whether the sink is locked and the queue of tasks
//! waiting for it; each handle holds whether it has the lock and its place
//! in the queue. Unlocking wakes every queued task; each retries.
use slab::Slab;
use std::task::Waker;

use vstd::prelude::*;

verus! {

/// A task parked until it is woken: its waker, or nothing once woken.
#[derive(Clone, Debug)]
pub enum Waiter<W> {
    Sleeping(W),
    Woken,
}

impl<W> Waiter<W> {
    pub fn new(waker: W) -> (r: Self)
        ensures
            r == Waiter::Sleeping(waker),
    {
        Waiter::Sleeping(waker)
    }

    /// Parks the task again with its current waker.
    pub fn register(&mut self, waker: W)
        ensures
            *final(self) == Waiter::Sleeping(waker),
    {
        *self = Waiter::Sleeping(waker);
    }

    /// Marks the task woken and hands out its waker, if it was sleeping.
    pub fn wake(&mut self) -> (r: Option<W>)
        ensures
            *final(self) == Waiter::<W>::Woken,
            match *old(self) {
                Waiter::Sleeping(w) => r == Some(w),
                Waiter::Woken => r is None,
            },
    {
        let mut taken = Waiter::Woken;
        std::mem::swap(self, &mut taken);
        match taken {
            Waiter::Sleeping(w) => Some(w),
            Waiter::Woken => None,
        }
    }
}

// ---------------------------------------------------------------------------
// The queue of waiting tasks
// ---------------------------------------------------------------------------
#[verifier::external_type_specification]
#[verifier::external_body]
pub struct ExWaker(std::task::Waker);

#[verifier::external_type_specification]
#[verifier::external_body]
#[verifier::reject_recursive_types(T)]
pub struct ExSlab<T>(slab::Slab<T>);

/// The entries of a waiter queue: for each key in use, its waiter.
pub uninterp spec fn waiter_entries(s: Slab<Waiter<Waker>>) -> Map<usize, Waiter<Waker>>;

/// For each key in use, whether its task sleeps.
pub open spec fn slots_of(m: Map<usize, Waiter<Waker>>) -> Map<usize, bool> {
    m.map_values(|w: Waiter<Waker>| w is Sleeping)
}

/// The slots of a waiter queue: for each key in use, whether its task sleeps.
pub open spec fn waiter_slots(s: Slab<Waiter<Waker>>) -> Map<usize, bool> {
    slots_of(waiter_entries(s))
}

/// Taking a key out of the queue takes it out of the slots.
proof fn lemma_slots_of_remove(m: Map<usize, Waiter<Waker>>, k: usize)
    ensures
        slots_of(m.remove(k)) == slots_of(m).remove(k),
{
    assert(slots_of(m.remove(k)) =~= slots_of(m).remove(k));
}

/// `Slab::new`: no slot in use.
#[verifier::external_body]
fn waiters_new() -> (r: Slab<Waiter<Waker>>)
    ensures
        waiter_entries(r).dom() == Set::<usize>::empty(),
{
    Slab::new()
}

/// `Slab::insert`: the value goes in a slot not in use, whose key comes back.
#[verifier::external_body]
fn waiters_insert(s: &mut Slab<Waiter<Waker>>, w: Waiter<Waker>) -> (r: usize)
    ensures
        !waiter_entries(*old(s)).contains_key(r),
        waiter_entries(*final(s)) == waiter_entries(*old(s)).insert(r, w),
{
    s.insert(w)
}

/// `Slab`'s `IndexMut` on a key in use (any other key panics, which the
/// caller rules out), with the slot's value swapped for `w`: the old value
/// comes back.
#[verifier::external_body]
fn waiters_replace(s: &mut Slab<Waiter<Waker>>, key: usize, w: Waiter<Waker>) -> (r: Waiter<Waker>)
    requires
        waiter_entries(*old(s)).contains_key(key),
    ensures
        waiter_entries(*final(s)) == waiter_entries(*old(s)).insert(key, w),
        r == waiter_entries(*old(s))[key],
{
    std::mem::replace(&mut s[key], w)
}

/// `Slab::iter`, keeping the keys: the keys in use, each once, in
/// increasing order (the slab walks its slots by index, and a slot's index
/// is its key).
#[verifier::external_body]
fn waiters_keys(s: &Slab<Waiter<Waker>>) -> (r: Vec<usize>)
    ensures
        forall|i: int, j: int| 0 <= i < j < r@.len() ==> r@[i] < r@[j],
        forall|i: int| 0 <= i < r@.len() ==> waiter_entries(*s).contains_key(#[trigger] r@[i]),
        forall|k: usize| #[trigger] waiter_entries(*s).contains_key(k) ==> r@.contains(k),
{
    s.iter().map(|entry| entry.0).collect()
}

/// `Slab::try_remove`: the slot is no longer in use.
#[verifier::external_body]
fn waiters_remove(s: &mut Slab<Waiter<Waker>>, key: usize)
    ensures
        waiter_entries(*final(s)) == waiter_entries(*old(s)).remove(key),
{
    let _ = s.try_remove(key);
}

/// The sleeping tasks' keys.
pub open spec fn sleeping(slots: Map<usize, bool>) -> Set<usize> {
    slots.dom().filter(|k: usize| slots[k])
}

/// The keys of `keys` whose tasks sleep, in the order of `keys`.
pub open spec fn sleeping_in(keys: Seq<usize>, slots: Map<usize, bool>) -> Seq<usize> {
    keys.filter(|k: usize| slots[k])
}

/// Keys in strictly increasing order.
pub open spec fn increasing(ks: Seq<usize>) -> bool {
    forall|a: int, b: int| 0 <= a < b < ks.len() ==> ks[a] < ks[b]
}

/// The wakers of the sleeping entries at `ks`, in the order of `ks`.
pub open spec fn wakers_at(m: Map<usize, Waiter<Waker>>, ks: Seq<usize>) -> Seq<Waker> {
    ks.map_values(|k: usize| m[k]->Sleeping_0)
}

/// `r` is the wakers of the sleeping entries of `m`, in increasing key
/// order.
pub open spec fn are_sleeping_wakers(r: Seq<Waker>, m: Map<usize, Waiter<Waker>>) -> bool {
    exists|ks: Seq<usize>|
        #[trigger] increasing(ks) && ks.to_set() == sleeping(slots_of(m)) && r == wakers_at(m, ks)
}

/// Wakes every queued task: each slot in use is marked woken, in key order,
/// and the wakers of the tasks that slept come back in that order; no slot
/// is freed.
fn take_all(s: &mut Slab<Waiter<Waker>>) -> (r: Vec<Waker>)
    ensures
        waiter_entries(*final(s)).dom() == waiter_entries(*old(s)).dom(),
        forall|k: usize| #[trigger] waiter_entries(*final(s)).contains_key(k) ==> waiter_entries(*final(s))[k] == Waiter::<Waker>::Woken,
        are_sleeping_wakers(r@, waiter_entries(*old(s))),
        r@.len() == sleeping(waiter_slots(*old(s))).len(),
{
    let ghost before = waiter_entries(*s);
    let ghost bslots = slots_of(before);
    let keys = waiters_keys(s);
    let mut wakers: Vec<Waker> = Vec::new();
    let ghost mut picked: Seq<usize> = Seq::empty();
    let mut i: usize = 0;
    while i < keys.len()
        invariant
            0 <= i <= keys@.len(),
            bslots == slots_of(before),
            forall|a: int, b: int| 0 <= a < b < keys@.len() ==> keys@[a] < keys@[b],
            forall|a: int| 0 <= a < keys@.len() ==> before.contains_key(#[trigger] keys@[a]),
            forall|k: usize| #[trigger] before.contains_key(k) ==> keys@.contains(k),
            waiter_entries(*s).dom() == before.dom(),
            forall|a: int| 0 <= a < i ==> waiter_entries(*s)[#[trigger] keys@[a]] == Waiter::<Waker>::Woken,
            forall|k: usize|
                #[trigger] before.contains_key(k) && (forall|a: int| 0 <= a < i ==> keys@[a] != k)
                    ==> waiter_entries(*s)[k] == before[k],
            picked == sleeping_in(keys@.take(i as int), bslots),
            wakers@ == wakers_at(before, picked),
        decreases keys@.len() - i,
    {
        let k = keys[i];
        assert(keys@.take(i + 1) == keys@.take(i as int).push(k));
        proof {
            keys@.take(i as int).lemma_filter_push(k, |x: usize| bslots[x]);
            assert forall|a: int| 0 <= a < i implies keys@[a] != k by {}
        }
        let mut prev = waiters_replace(s, k, Waiter::Woken);
        match prev.wake() {
            Some(w) => {
                wakers.push(w);
                assert(wakers@ =~= wakers_at(before, picked.push(k)));
            },
            None => {},
        }
        proof {
            picked = sleeping_in(keys@.take(i + 1), bslots);
        }
        i += 1;
    }
    proof {
        assert(keys@.take(i as int) =~= keys@);
        assert forall|k: usize| #[trigger] waiter_entries(*s).contains_key(k) implies waiter_entries(*s)[k] == Waiter::<Waker>::Woken by {
            let a = keys@.index_of(k);
            assert(keys@[a] == k);
        }
        lemma_sleeping_in_len(keys@, bslots);
        lemma_filter_increasing(keys@, |x: usize| bslots[x]);
        assert(increasing(picked));
    }
    wakers
}

/// The sleeping keys among a list of every key in use, each once and in
/// increasing order, are the sleeping tasks, as many as there are.
proof fn lemma_sleeping_in_len(keys: Seq<usize>, slots: Map<usize, bool>)
    requires
        forall|a: int, b: int| 0 <= a < b < keys.len() ==> keys[a] < keys[b],
        forall|a: int| 0 <= a < keys.len() ==> slots.contains_key(#[trigger] keys[a]),
        forall|k: usize| #[trigger] slots.contains_key(k) ==> keys.contains(k),
    ensures
        sleeping_in(keys, slots).to_set() == sleeping(slots),
        sleeping_in(keys, slots).len() == sleeping(slots).len(),
{
    let f = sleeping_in(keys, slots);
    let pred = |k: usize| slots[k];
    assert(keys.no_duplicates()) by {
        assert forall|a: int, b: int| 0 <= a < keys.len() && 0 <= b < keys.len() && a != b implies keys[a] != keys[b] by {
            if a < b {
            } else {
            }
        }
    }
    assert(f.no_duplicates()) by {
        keys.filter_lemma(pred);
        lemma_filter_no_duplicates(keys, pred);
    }
    assert(f.to_set() =~= sleeping(slots)) by {
        assert forall|k: usize| f.to_set().contains(k) implies sleeping(slots).contains(k) by {
            keys.filter_lemma(pred);
            assert(f.contains(k));
            keys.lemma_filter_contains_rev(pred, k);
            let a = f.index_of(k);
            assert(f[a] == k);
            assert(pred(f[a]));
        }
        assert forall|k: usize| sleeping(slots).contains(k) implies f.to_set().contains(k) by {
            let a = keys.index_of(k);
            keys.lemma_filter_contains(pred, a);
        }
    }
    f.unique_seq_to_set();
}

/// Filtering keys in increasing order keeps them in increasing order, and
/// keeps only keys of the list.
proof fn lemma_filter_increasing(s: Seq<usize>, pred: spec_fn(usize) -> bool)
    requires
        increasing(s),
    ensures
        increasing(s.filter(pred)),
    decreases s.len(),
{
    if s.len() > 0 {
        let init = s.drop_last();
        let last = s.last();
        assert(init.push(last) =~= s);
        lemma_filter_increasing(init, pred);
        init.lemma_filter_push(last, pred);
        if pred(last) {
            let f = init.filter(pred);
            assert forall|a: int| 0 <= a < f.len() implies f[a] < last by {
                assert(f.contains(f[a]));
                init.lemma_filter_contains_rev(pred, f[a]);
                let b = init.index_of(f[a]);
                assert(init[b] == s[b]);
            }
            assert(s.filter(pred) == f.push(last));
        }
    }
}

/// Filtering a list without repeats gives a list without repeats.
proof fn lemma_filter_no_duplicates(s: Seq<usize>, pred: spec_fn(usize) -> bool)
    requires
        s.no_duplicates(),
    ensures
        s.filter(pred).no_duplicates(),
    decreases s.len(),
{
    if s.len() > 0 {
        let init = s.drop_last();
        assert(init.push(s.last()) =~= s);
        assert(init.no_duplicates());
        lemma_filter_no_duplicates(init, pred);
        init.lemma_filter_push(s.last(), pred);
        if pred(s.last()) {
            init.filter_lemma(pred);
            assert(!init.filter(pred).contains(s.last())) by {
                if init.filter(pred).contains(s.last()) {
                    init.lemma_filter_contains_rev(pred, s.last());
                    let b = init.index_of(s.last());
                    assert(s[b] == s[s.len() - 1]);
                }
            }
        }
    }
}

// ---------------------------------------------------------------------------
// The shared state
// ---------------------------------------------------------------------------
/// What `SinkState::lock` found.
#[derive(Clone, Copy, Debug, PartialEq, Eq, Structural)]
pub enum LockStatus {
    /// The sink was locked; the caller is now queued under this key.
    Joined(usize),
    /// The sink was locked; the caller was queued already.
    Waiting,
    /// The sink was free; the caller holds it now.
    Unlocked,
}

/// Whether the sink is locked, and who waits for it.
pub struct SinkState {
    pub locked: bool,
    pub waiters: Slab<Waiter<Waker>>,
}

impl SinkState {
    /// The queue: each queued task's waiter, by key.
    pub open spec fn entries(&self) -> Map<usize, Waiter<Waker>> {
        waiter_entries(self.waiters)
    }

    /// For each queued task, whether it sleeps.
    pub open spec fn slots(&self) -> Map<usize, bool> {
        waiter_slots(self.waiters)
    }

    pub fn new() -> (r: Self)
        ensures
            !r.locked,
            r.entries() == Map::<usize, Waiter<Waker>>::empty(),
            r.slots() == Map::<usize, bool>::empty(),
    {
        let r = SinkState { locked: false, waiters: waiters_new() };
        assert(r.entries() =~= Map::<usize, Waiter<Waker>>::empty());
        assert(r.slots() =~= Map::<usize, bool>::empty());
        r
    }

    /// Takes the lock when it is free; otherwise queues the caller with its
    /// waker, or replaces its waker when it is queued under `key` already.
    pub fn lock(&mut self, key: Option<usize>, waker: Waker) -> (r: LockStatus)
        requires
            key matches Some(k) ==> old(self).slots().contains_key(k),
        ensures
            final(self).locked,
            !old(self).locked ==> r is Unlocked && final(self).entries() == old(self).entries(),
            old(self).locked ==> match key {
                Some(k) => r is Waiting && final(self).entries() == old(self).entries().insert(
                    k,
                    Waiter::Sleeping(waker),
                ),
                None => r matches LockStatus::Joined(j) && !old(self).entries().contains_key(j)
                    && final(self).entries() == old(self).entries().insert(j, Waiter::Sleeping(waker)),
            },
    {
        let was_locked = self.locked;
        self.locked = true;
        if !was_locked {
            return LockStatus::Unlocked;
        }
        match key {
            Some(k) => {
                let _ = waiters_replace(&mut self.waiters, k, Waiter::Sleeping(waker));
                LockStatus::Waiting
            },
            None => {
                let pos = waiters_insert(&mut self.waiters, Waiter::Sleeping(waker));
                LockStatus::Joined(pos)
            },
        }
    }

    /// Frees the sink and wakes every queued task: the wakers of those that
    /// slept come back in key order, to be woken, and every task is marked
    /// woken.
    pub fn unlock(&mut self) -> (r: Vec<Waker>)
        ensures
            !final(self).locked,
            final(self).entries().dom() == old(self).entries().dom(),
            forall|k: usize| #[trigger] final(self).entries().contains_key(k) ==> final(self).entries()[k] == Waiter::<Waker>::Woken,
            are_sleeping_wakers(r@, old(self).entries()),
            r@.len() == sleeping(old(self).slots()).len(),
    {
        self.locked = false;
        take_all(&mut self.waiters)
    }

    /// Frees the sink without waking anyone.
    pub fn unlock_silent(&mut self)
        ensures
            !final(self).locked,
            final(self).entries() == old(self).entries(),
    {
        self.locked = false;
    }

    /// Queues a task with its waker.
    pub fn add_waiter(&mut self, waker: Waker) -> (r: usize)
        ensures
            final(self).locked == old(self).locked,
            !old(self).entries().contains_key(r),
            final(self).entries() == old(self).entries().insert(r, Waiter::Sleeping(waker)),
    {
        waiters_insert(&mut self.waiters, Waiter::Sleeping(waker))
    }

    /// Replaces a queued task's waker.
    pub fn update_waiter(&mut self, key: usize, waker: Waker)
        requires
            old(self).slots().contains_key(key),
        ensures
            final(self).locked == old(self).locked,
            final(self).entries() == old(self).entries().insert(key, Waiter::Sleeping(waker)),
    {
        let _ = waiters_replace(&mut self.waiters, key, Waiter::Sleeping(waker));
    }

    /// Takes a task out of the queue. When the sink is free nobody else
    /// will unlock it, so the tasks still queued are woken (the wakers of
    /// those that slept come back, in key order); when it is locked, nobody
    /// is.
    pub fn remove(&mut self, key: usize) -> (r: Vec<Waker>)
        ensures
            final(self).locked == old(self).locked,
            old(self).locked ==> final(self).entries() == old(self).entries().remove(key)
                && r@.len() == 0,
            !old(self).locked ==> {
                &&& final(self).entries().dom() == old(self).entries().remove(key).dom()
                &&& forall|k: usize| #[trigger] final(self).entries().contains_key(k) ==> final(self).entries()[k] == Waiter::<Waker>::Woken
                &&& are_sleeping_wakers(r@, old(self).entries().remove(key))
                &&& r@.len() == sleeping(old(self).slots().remove(key)).len()
            },
    {
        proof {
            lemma_slots_of_remove(self.entries(), key);
        }
        waiters_remove(&mut self.waiters, key);
        if self.locked {
            return Vec::new();
        }
        take_all(&mut self.waiters)
    }
}

// ---------------------------------------------------------------------------
// A handle
// ---------------------------------------------------------------------------
/// One user's handle on the shared sink: whether it holds the lock, and
/// its place in the queue.
pub struct LockedSink {
    pub pos: Option<usize>,
    pub locked: bool,
}

/// Whether a handle's place, if it has one, is a slot in use.
pub open spec fn place_valid(pos: Option<usize>, slots: Map<usize, bool>) -> bool {
    pos matches Some(k) ==> slots.contains_key(k)
}

impl LockedSink {
    pub fn new() -> (r: Self)
        ensures
            r.pos is None,
            !r.locked,
    {
        LockedSink { pos: None, locked: false }
    }

    /// A new handle on the same sink: it neither holds the lock nor waits.
    pub fn clone(&self) -> (r: Self)
        ensures
            r.pos is None,
            !r.locked,
    {
        LockedSink { pos: None, locked: false }
    }

    /// Tries to take the lock. It is taken (`true`) when the handle held it
    /// already or the sink was free; the handle then leaves the queue. When
    /// the sink is held by another, the handle is queued with `waker` (a
    /// handle queued already has its waker replaced) and `false` comes back.
    /// With the state borrowed for the whole call, no unlock can come in
    /// between, so a handle that finds the sink held leaves it held.
    pub fn poll_lock(&mut self, state: &mut SinkState, waker: Waker) -> (r: bool)
        requires
            place_valid(old(self).pos, old(state).slots()),
            old(self).locked ==> old(state).locked,
        ensures
            place_valid(final(self).pos, final(state).slots()),
            final(self).locked ==> final(state).locked,
            r == final(self).locked,
            final(self).locked ==> old(self).locked || !old(state).locked,
            old(self).locked ==> r && *final(self) == *old(self) && *final(state) == *old(state),
            !old(self).locked && !old(state).locked ==> {
                &&& r
                &&& final(self).locked
                &&& final(self).pos is None
                &&& final(state).locked
                &&& match old(self).pos {
                    Some(k) => final(state).entries() == old(state).entries().remove(k),
                    None => final(state).entries() == old(state).entries(),
                }
            },
            !old(self).locked && old(state).locked ==> {
                &&& !r
                &&& !final(self).locked
                &&& final(state).locked
                &&& final(self).pos matches Some(k) && final(state).entries() == old(
                    state,
                ).entries().insert(k, Waiter::Sleeping(waker))
                &&& (old(self).pos is Some ==> final(self).pos == old(self).pos)
                &&& (old(self).pos is None ==> !old(state).entries().contains_key(final(self).pos->0))
            },
    {
        if self.locked {
            return true;
        }
        match state.lock(self.pos, waker) {
            LockStatus::Joined(pos) => {
                self.pos = Some(pos);
                false
            },
            LockStatus::Waiting => false,
            LockStatus::Unlocked => {
                match self.pos {
                    Some(p) => {
                        let _ = state.remove(p);
                    },
                    None => {},
                }
                self.pos = None;
                self.locked = true;
                true
            },
        }
    }

    /// Gives the lock back, waking every queued task (the wakers of those
    /// that slept come back, in key order); a handle that does not hold the
    /// lock does nothing.
    pub fn unlock(&mut self, state: &mut SinkState) -> (r: Vec<Waker>)
        requires
            old(self).locked ==> old(state).locked,
        ensures
            !final(self).locked,
            final(self).pos == old(self).pos,
            old(self).locked ==> {
                &&& !final(state).locked
                &&& final(state).entries().dom() == old(state).entries().dom()
                &&& forall|k: usize| #[trigger] final(state).entries().contains_key(k) ==> final(state).entries()[k] == Waiter::<Waker>::Woken
                &&& are_sleeping_wakers(r@, old(state).entries())
                &&& r@.len() == sleeping(old(state).slots()).len()
            },
            !old(self).locked ==> *final(state) == *old(state) && r@.len() == 0,
    {
        if self.locked {
            self.locked = false;
            state.unlock()
        } else {
            Vec::new()
        }
    }

    /// Gives the lock back from an operation that has to wait for the sink,
    /// staying queued: the handle is queued with `waker` (or its waker
    /// replaced) first, then the sink is freed without waking anyone.
    pub fn unlock_and_wait(&mut self, state: &mut SinkState, waker: Waker)
        requires
            place_valid(old(self).pos, old(state).slots()),
            old(self).locked ==> old(state).locked,
        ensures
            !final(self).locked,
            final(self).pos matches Some(k) && final(state).entries() == old(state).entries().insert(
                k,
                Waiter::Sleeping(waker),
            ),
            old(self).pos is Some ==> final(self).pos == old(self).pos,
            old(self).pos is None ==> !old(state).entries().contains_key(final(self).pos->0),
            old(self).locked ==> !final(state).locked,
            !old(self).locked ==> final(state).locked == old(state).locked,
    {
        match self.pos {
            Some(pos) => state.update_waiter(pos, waker),
            None => {
                let pos = state.add_waiter(waker);
                self.pos = Some(pos);
            },
        }
        if self.locked {
            self.locked = false;
            state.unlock_silent();
        }
    }

    /// Hands the held lock over to a guard: the handle no longer holds it.
    pub fn get_handle(&mut self)
        requires
            old(self).locked,
        ensures
            !final(self).locked,
            final(self).pos == old(self).pos,
    {
        self.locked = false;
    }

    /// Drops the handle: it leaves the queue (see `SinkState::remove`) and
    /// gives back the lock it holds; the wakers of the tasks to wake come
    /// back. A handle that holds the lock wakes every task still queued; one
    /// that does not wakes them when the sink is free, and nobody otherwise.
    pub fn release(&mut self, state: &mut SinkState) -> (r: Vec<Waker>)
        requires
            place_valid(old(self).pos, old(state).slots()),
            old(self).locked ==> old(state).locked,
        ensures
            final(self).pos is None,
            !final(self).locked,
            old(self).locked ==> !final(state).locked,
            !old(self).locked ==> final(state).locked == old(state).locked,
            ({
                let left = match old(self).pos {
                    Some(k) => old(state).entries().remove(k),
                    None => old(state).entries(),
                };
                &&& final(state).entries().dom() == left.dom()
                &&& if old(self).locked || (!old(state).locked && old(self).pos is Some) {
                    &&& are_sleeping_wakers(r@, left)
                    &&& forall|k: usize| #[trigger] final(state).entries().contains_key(k) ==> final(state).entries()[k] == Waiter::<Waker>::Woken
                } else {
                    &&& r@.len() == 0
                    &&& final(state).entries() == left
                }
            }),
    {
        let mut woken = match self.pos {
            Some(pos) => {
                self.pos = None;
                state.remove(pos)
            },
            None => Vec::new(),
        };
        let ghost first = woken@;
        let mut more = self.unlock(state);
        let ghost second = more@;
        woken.append(&mut more);
        proof {
            if old(self).locked {
                assert(first.len() == 0);
                assert(woken@ =~= second);
            } else {
                assert(second.len() == 0);
                assert(woken@ =~= first);
            }
        }
        woken
    }
}

/// At most one handle holds the sink. A handle that holds it keeps it
/// locked (every handle operation keeps `locked ==> state.locked`), and
/// `poll_lock` gives the lock only to a handle that held it already or found
/// the sink free: so while `a` holds the sink, another handle `b` that polls
/// does not get it.
pub proof fn lemma_one_holder(a: LockedSink, b_before: LockedSink, b_after: LockedSink, state: SinkState)
    requires
        a.locked,
        a.locked ==> state.locked,
        !b_before.locked,
        b_after.locked ==> b_before.locked || !state.locked,
    ensures
        !b_after.locked,
{
}

} // verus!
