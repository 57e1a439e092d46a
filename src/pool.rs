//! Lease accounting of the session pool.
//!
//! The pool owns at most `capacity` sessions, each under an identifier
//! that is never reused. A session is idle, being validated, being opened,
//! or leased to exactly one caller. Opening, validating and waiting are the
//! caller's I/O: the pool decides what to do next and records the outcome.
//! A session that fails validation is discarded at once, so it is never
//! leased again; callers beyond capacity wait instead of opening more.

use vstd::prelude::*;

verus! {

/// Where a session of the pool stands.
#[derive(Debug, Clone, Copy, PartialEq, Eq, Structural)]
pub enum SlotState {
    /// Ready to be handed out once it passes validation.
    Idle,
    /// Taken from the idle set; its liveness check is under way.
    Checking,
    /// Reserved for a new session whose connection is under way.
    Opening,
    /// Leased to one caller.
    Leased,
}

/// One session of the pool.
#[derive(Debug, Clone, Copy, PartialEq, Eq, Structural)]
pub struct Slot {
    pub id: u64,
    pub state: SlotState,
}

/// What a caller of `acquire` is to do next.
#[derive(Debug, Clone, Copy, PartialEq, Eq, Structural)]
pub enum Acquire {
    /// Check the liveness of idle session `id`, then report it.
    Validate(u64),
    /// Open a new session under `id`, then report it.
    Connect(u64),
    /// Every session is in use: wait for a release, up to the timeout.
    Wait,
}

/// Identifiers are unique and below the next fresh one.
pub open spec fn ids_ok(slots: Seq<Slot>, next_id: int) -> bool {
    &&& forall|i: int, j: int| 0 <= i < j < slots.len() ==> slots[i].id != slots[j].id
    &&& forall|i: int| 0 <= i < slots.len() ==> slots[i].id < next_id
}

/// No session of `slots` is one of `failed`.
pub open spec fn none_failed(slots: Seq<Slot>, failed: Set<u64>) -> bool {
    forall|i: int| 0 <= i < slots.len() ==> !failed.contains(#[trigger] slots[i].id)
}

/// The index of session `id` in `slots`.
pub open spec fn index_of(slots: Seq<Slot>, id: u64, i: int) -> bool {
    0 <= i < slots.len() && slots[i].id == id
}

/// `slots` holds no session `id`.
pub open spec fn absent(slots: Seq<Slot>, id: u64) -> bool {
    forall|i: int| 0 <= i < slots.len() ==> #[trigger] slots[i].id != id
}

/// Session `id` is in `slots`, in state `st`.
pub open spec fn in_state(slots: Seq<Slot>, id: u64, st: SlotState) -> bool {
    exists|i: int| #![trigger index_of(slots, id, i)] index_of(slots, id, i) && slots[i].state == st
}

/// `after` is `before` with idle session `id` taken for validation.
pub open spec fn took_idle(before: Seq<Slot>, after: Seq<Slot>, id: u64) -> bool {
    exists|i: int|
        #![trigger index_of(before, id, i)]
        index_of(before, id, i) && before[i].state == SlotState::Idle && after == before.update(
            i,
            Slot { id, state: SlotState::Checking },
        )
}

pub struct SessionPool {
    capacity: usize,
    slots: Vec<Slot>,
    next_id: u64,
    failed: Ghost<Set<u64>>,
}

impl SessionPool {
    /// The sessions of the pool and where each stands.
    pub closed spec fn slots(&self) -> Seq<Slot> {
        self.slots@
    }

    /// The sessions that failed validation, all of them discarded.
    pub closed spec fn failed(&self) -> Set<u64> {
        self.failed@
    }

    pub closed spec fn capacity(&self) -> nat {
        self.capacity as nat
    }

    /// The identifier that the next new session gets.
    pub closed spec fn next_id(&self) -> nat {
        self.next_id as nat
    }

    pub closed spec fn wf(&self) -> bool {
        &&& self.slots@.len() <= self.capacity
        &&& ids_ok(self.slots@, self.next_id as int)
        &&& none_failed(self.slots@, self.failed@)
        &&& forall|id: u64| #[trigger] self.failed@.contains(id) ==> id < self.next_id
    }

    /// An empty pool of at most `capacity` sessions.
    pub fn new(capacity: usize) -> (r: Self)
        ensures
            r.wf(),
            r.capacity() == capacity,
            r.slots() == Seq::<Slot>::empty(),
            r.failed() == Set::<u64>::empty(),
            r.next_id() == 0,
    {
        SessionPool { capacity, slots: Vec::new(), next_id: 0, failed: Ghost(Set::empty()) }
    }

    fn find(&self, id: u64) -> (r: Option<usize>)
        requires
            self.wf(),
        ensures
            r is Some ==> index_of(self.slots@, id, r->0 as int),
            r is None ==> absent(self.slots@, id),
    {
        let mut i: usize = 0;
        while i < self.slots.len()
            invariant
                i <= self.slots@.len(),
                forall|j: int| 0 <= j < i ==> self.slots@[j].id != id,
            decreases self.slots@.len() - i,
        {
            if self.slots[i].id == id {
                return Some(i);
            }
            i += 1;
        }
        None
    }

    fn first_idle(&self) -> (r: Option<usize>)
        ensures
            r is Some ==> r->0 < self.slots@.len() && self.slots@[r->0 as int].state == SlotState::Idle,
            r is None ==> forall|j: int|
                0 <= j < self.slots@.len() ==> #[trigger] self.slots@[j].state != SlotState::Idle,
    {
        let mut i: usize = 0;
        while i < self.slots.len()
            invariant
                i <= self.slots@.len(),
                forall|j: int| 0 <= j < i ==> #[trigger] self.slots@[j].state != SlotState::Idle,
            decreases self.slots@.len() - i,
        {
            if self.slots[i].state == SlotState::Idle {
                return Some(i);
            }
            i += 1;
        }
        None
    }

    /// Decides what a caller that wants a session does next: validate the
    /// first idle session, else open a new one while under capacity, else
    /// wait. The session handed to the caller is marked as under check or
    /// under connection until the caller reports back.
    pub fn begin_acquire(&mut self) -> (r: Acquire)
        requires
            old(self).wf(),
        ensures
            final(self).wf(),
            final(self).failed() == old(self).failed(),
            final(self).capacity() == old(self).capacity(),
            match r {
                Acquire::Validate(id) => took_idle(old(self).slots(), final(self).slots(), id),
                Acquire::Connect(id) => {
                    &&& forall|j: int|
                        0 <= j < old(self).slots().len() ==> #[trigger] old(self).slots()[j].state
                            != SlotState::Idle
                    &&& old(self).slots().len() < old(self).capacity()
                    &&& id == old(self).next_id()
                    &&& absent(old(self).slots(), id)
                    &&& !old(self).failed().contains(id)
                    &&& final(self).slots() == old(self).slots().push(
                        Slot { id, state: SlotState::Opening },
                    )
                },
                Acquire::Wait => {
                    &&& forall|j: int|
                        0 <= j < old(self).slots().len() ==> #[trigger] old(self).slots()[j].state
                            != SlotState::Idle
                    &&& old(self).slots().len() >= old(self).capacity() || old(self).next_id()
                        == u64::MAX
                    &&& final(self).slots() == old(self).slots()
                },
            },
    {
        match self.first_idle() {
            Some(i) => {
                let id = self.slots[i].id;
                self.slots.set(i, Slot { id, state: SlotState::Checking });
                assert(index_of(old(self).slots(), id, i as int));
                assert(took_idle(old(self).slots(), self.slots(), id));
                Acquire::Validate(id)
            },
            None => {
                if self.slots.len() < self.capacity && self.next_id < u64::MAX {
                    let id = self.next_id;
                    self.slots.push(Slot { id, state: SlotState::Opening });
                    self.next_id = id + 1;
                    Acquire::Connect(id)
                } else {
                    Acquire::Wait
                }
            },
        }
    }

    /// Records the liveness check of session `id`: a live session is
    /// leased to the caller; a dead one is discarded for good. Returns
    /// whether the caller now holds the session; a session that was not
    /// under check is left alone.
    pub fn finish_validate(&mut self, id: u64, alive: bool) -> (granted: bool)
        requires
            old(self).wf(),
        ensures
            final(self).wf(),
            final(self).capacity() == old(self).capacity(),
            final(self).next_id() == old(self).next_id(),
            granted ==> alive,
            in_state(old(self).slots(), id, SlotState::Checking) ==> {
                let i = choose|i: int| index_of(old(self).slots(), id, i);
                if alive {
                    &&& granted
                    &&& final(self).slots() == old(self).slots().update(i, Slot { id, state: SlotState::Leased })
                    &&& final(self).failed() == old(self).failed()
                } else {
                    &&& final(self).slots() == old(self).slots().remove(i)
                    &&& final(self).failed() == old(self).failed().insert(id)
                }
            },
            !in_state(old(self).slots(), id, SlotState::Checking) ==> {
                &&& !granted
                &&& final(self).slots() == old(self).slots()
                &&& final(self).failed() == old(self).failed()
            },
    {
        match self.find(id) {
            Some(i) => {
                if self.slots[i].state != SlotState::Checking {
                    return false;
                }
                proof {
                    let c = choose|c: int| index_of(old(self).slots(), id, c);
                    assert(c == i);
                }
                if alive {
                    self.slots.set(i, Slot { id, state: SlotState::Leased });
                    true
                } else {
                    let ghost prev = self.slots@;
                    self.slots.remove(i);
                    self.failed = Ghost(self.failed@.insert(id));
                    proof { lemma_remove_ok(prev, i as int, old(self).failed@, self.next_id as int); }
                    false
                }
            },
            None => false,
        }
    }
}

impl SessionPool {
    /// Records the outcome of opening session `id`: on success the caller
    /// holds it; on failure (a connect error) its place is freed for a
    /// later attempt. Returns whether the caller now holds the session; a
    /// session that was not being opened is left alone.
    pub fn finish_connect(&mut self, id: u64, ok: bool) -> (granted: bool)
        requires
            old(self).wf(),
        ensures
            final(self).wf(),
            final(self).capacity() == old(self).capacity(),
            final(self).next_id() == old(self).next_id(),
            final(self).failed() == old(self).failed(),
            granted ==> ok,
            in_state(old(self).slots(), id, SlotState::Opening) ==> {
                let i = choose|i: int| index_of(old(self).slots(), id, i);
                if ok {
                    &&& granted
                    &&& final(self).slots() == old(self).slots().update(i, Slot { id, state: SlotState::Leased })
                } else {
                    final(self).slots() == old(self).slots().remove(i)
                }
            },
            !in_state(old(self).slots(), id, SlotState::Opening) ==> !granted && final(self).slots()
                == old(self).slots(),
    {
        match self.find(id) {
            Some(i) => {
                if self.slots[i].state != SlotState::Opening {
                    return false;
                }
                proof {
                    let c = choose|c: int| index_of(old(self).slots(), id, c);
                    assert(c == i);
                }
                if ok {
                    self.slots.set(i, Slot { id, state: SlotState::Leased });
                    true
                } else {
                    let ghost prev = self.slots@;
                    self.slots.remove(i);
                    proof { lemma_remove_ok(prev, i as int, self.failed@, self.next_id as int); }
                    false
                }
            },
            None => false,
        }
    }

    /// Takes session `id` back from its caller: a broken session is dropped
    /// and replaced on a later demand; any other becomes idle. Returns
    /// whether `id` was leased; a session that was not is left alone.
    pub fn release(&mut self, id: u64, broken: bool) -> (taken: bool)
        requires
            old(self).wf(),
        ensures
            final(self).wf(),
            final(self).capacity() == old(self).capacity(),
            final(self).next_id() == old(self).next_id(),
            final(self).failed() == old(self).failed(),
            taken == in_state(old(self).slots(), id, SlotState::Leased),
            taken ==> {
                let i = choose|i: int| index_of(old(self).slots(), id, i);
                if broken {
                    final(self).slots() == old(self).slots().remove(i)
                } else {
                    final(self).slots() == old(self).slots().update(i, Slot { id, state: SlotState::Idle })
                }
            },
            !taken ==> final(self).slots() == old(self).slots(),
    {
        match self.find(id) {
            Some(i) => {
                if self.slots[i].state != SlotState::Leased {
                    return false;
                }
                proof {
                    let c = choose|c: int| index_of(old(self).slots(), id, c);
                    assert(c == i);
                }
                if broken {
                    let ghost prev = self.slots@;
                    self.slots.remove(i);
                    proof { lemma_remove_ok(prev, i as int, self.failed@, self.next_id as int); }
                } else {
                    self.slots.set(i, Slot { id, state: SlotState::Idle });
                }
                true
            },
            None => false,
        }
    }
}

/// A well-kept pool holds no more sessions than its capacity, never two
/// under one identifier, and only identifiers already handed out.
pub proof fn pool_is_well_kept(p: SessionPool)
    requires
        p.wf(),
    ensures
        p.slots().len() <= p.capacity(),
        forall|i: int, j: int|
            0 <= i < j < p.slots().len() ==> p.slots()[i].id != p.slots()[j].id,
        forall|i: int| 0 <= i < p.slots().len() ==> p.slots()[i].id < p.next_id(),
{
}

/// A session whose liveness check failed is out of the pool for good: it
/// is neither idle, nor under check, nor being opened, nor leased, so no
/// caller is ever handed it again.
pub proof fn failed_session_is_never_handed_out(p: SessionPool, id: u64)
    requires
        p.wf(),
        p.failed().contains(id),
    ensures
        absent(p.slots(), id),
        id < p.next_id(),
{
}

proof fn lemma_remove_ok(prev: Seq<Slot>, i: int, failed: Set<u64>, next_id: int)
    requires
        0 <= i < prev.len(),
        ids_ok(prev, next_id),
        none_failed(prev, failed),
    ensures
        ids_ok(prev.remove(i), next_id),
        none_failed(prev.remove(i), failed),
        none_failed(prev.remove(i), failed.insert(prev[i].id)),
{
    let s = prev.remove(i);
    assert forall|a: int| 0 <= a < s.len() implies s[a] == (if a < i { prev[a] } else { prev[a + 1] }) by {}
    assert forall|a: int, b: int| 0 <= a < b < s.len() implies s[a].id != s[b].id by {
        let pa = if a < i { a } else { a + 1 };
        let pb = if b < i { b } else { b + 1 };
        assert(prev[pa].id != prev[pb].id);
    }
    assert forall|a: int| 0 <= a < s.len() implies !failed.insert(prev[i].id).contains(#[trigger] s[a].id) by {
        let pa = if a < i { a } else { a + 1 };
        assert(prev[pa].id != prev[i].id);
        assert(!failed.contains(prev[pa].id));
    }
}

} // verus!
