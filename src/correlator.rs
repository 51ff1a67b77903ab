use std::collections::HashMap;
use vstd::prelude::*;

verus! {

/// What a pending table holds, as values: the identifier that the next
/// request receives and the slot filed under each identifier still waiting.
pub ghost struct PendingModel<S> {
    pub next: nat,
    pub slots: Map<u64, S>,
}

impl<S> PendingModel<S> {
    /// Identifiers start at 1 and every waiting identifier was handed out.
    pub open spec fn wf(self) -> bool {
        &&& self.next >= 1
        &&& forall|k: u64| #[trigger] self.slots.contains_key(k) ==> 1 <= k < self.next
    }

    /// Whether another identifier can still be handed out.
    pub open spec fn can_register(self) -> bool {
        self.next < u64::MAX
    }

    /// The table after `slot` is filed under the next identifier.
    pub open spec fn registered(self, slot: S) -> PendingModel<S> {
        PendingModel { next: self.next + 1, slots: self.slots.insert(self.next as u64, slot) }
    }

    /// The table after identifier `id` is settled (answered or given up).
    pub open spec fn settled(self, id: u64) -> PendingModel<S> {
        PendingModel { next: self.next, slots: self.slots.remove(id) }
    }

    /// The slot that settling `id` hands out, if one waits under it.
    pub open spec fn slot_of(self, id: u64) -> Option<S> {
        if self.slots.contains_key(id) {
            Some(self.slots[id])
        } else {
            None
        }
    }
}

/// One step applied to a pending table: a new request, or the settling of an
/// identifier by its response or by its timeout.
pub ghost enum TableStep<S> {
    Register(S),
    Settle(u64),
}

/// The table after a run of steps, registrations that no identifier is left
/// for being skipped.
pub open spec fn run_steps<S>(m: PendingModel<S>, steps: Seq<TableStep<S>>) -> PendingModel<S>
    decreases steps.len(),
{
    if steps.len() == 0 {
        m
    } else {
        let m1 = match steps[0] {
            TableStep::Register(s) => if m.can_register() {
                m.registered(s)
            } else {
                m
            },
            TableStep::Settle(id) => m.settled(id),
        };
        run_steps(m1, steps.drop_first())
    }
}

/// Whether a run of steps settles identifier `id`.
pub open spec fn settles<S>(steps: Seq<TableStep<S>>, id: u64) -> bool {
    exists|i: int| 0 <= i < steps.len() && steps[i] == TableStep::<S>::Settle(id)
}

/// The table after each of `slots` is registered in turn.
pub open spec fn register_all<S>(m: PendingModel<S>, slots: Seq<S>) -> PendingModel<S>
    decreases slots.len(),
{
    if slots.len() == 0 {
        m
    } else {
        register_all(m.registered(slots[0]), slots.drop_first())
    }
}

/// The outstanding requests of one session.
pub struct PendingTable<S> {
    next_id: u64,
    slots: HashMap<u64, S>,
}

impl<S> View for PendingTable<S> {
    type V = PendingModel<S>;

    closed spec fn view(&self) -> PendingModel<S> {
        PendingModel { next: self.next_id as nat, slots: self.slots@ }
    }
}

impl<S> PendingTable<S> {
    /// An empty table whose first request receives identifier 1.
    pub fn new() -> (t: Self)
        ensures
            t@.wf(),
            t@.next == 1,
            t@.slots == Map::<u64, S>::empty(),
    {
        PendingTable { next_id: 1, slots: HashMap::new() }
    }

    /// Files `slot` under a fresh identifier and returns it; `None` once
    /// every identifier has been handed out.
    pub fn register(&mut self, slot: S) -> (id: Option<u64>)
        requires
            old(self)@.wf(),
        ensures
            final(self)@.wf(),
            old(self)@.can_register() ==> id == Some(old(self)@.next as u64) && final(self)@
                == old(self)@.registered(slot),
            !old(self)@.can_register() ==> id is None && final(self)@ == old(self)@,
    {
        if self.next_id == u64::MAX {
            return None;
        }
        let id = self.next_id;
        self.slots.insert(id, slot);
        self.next_id = id + 1;
        assert(final(self)@.slots == old(self)@.registered(slot).slots);
        Some(id)
    }

    /// Removes identifier `id` and hands out the slot that waited under it,
    /// if any; a response for an identifier that no longer waits finds none.
    pub fn take(&mut self, id: u64) -> (slot: Option<S>)
        requires
            old(self)@.wf(),
        ensures
            final(self)@.wf(),
            final(self)@ == old(self)@.settled(id),
            slot == old(self)@.slot_of(id),
    {
        let r = self.slots.remove(&id);
        assert(final(self)@.slots == old(self)@.settled(id).slots);
        r
    }

    /// Gives up on identifier `id` after its timeout; true when it was
    /// still waiting.
    pub fn evict(&mut self, id: u64) -> (was_waiting: bool)
        requires
            old(self)@.wf(),
        ensures
            final(self)@.wf(),
            final(self)@ == old(self)@.settled(id),
            was_waiting == old(self)@.slots.contains_key(id),
    {
        let r = self.take(id);
        r.is_some()
    }

    /// Whether identifier `id` is waiting for its response.
    pub fn is_waiting(&self, id: u64) -> (r: bool)
        ensures
            r == self@.slots.contains_key(id),
    {
        self.slots.contains_key(&id)
    }

    /// How many requests are waiting.
    pub fn waiting_count(&self) -> (n: usize)
        ensures
            n == self@.slots.len(),
    {
        self.slots.len()
    }
}

/// A registration hands out an identifier that no waiting request holds, and
/// identifiers only grow.
pub proof fn lemma_fresh_identifier<S>(m: PendingModel<S>, slot: S)
    requires
        m.wf(),
        m.can_register(),
    ensures
        !m.slots.contains_key(m.next as u64),
        m.registered(slot).wf(),
        m.registered(slot).next > m.next,
        m.registered(slot).slot_of(m.next as u64) == Some(slot),
{
}

/// Calls registered one after another receive consecutive identifiers
/// starting at the table's next one, each filed with its own slot: no two
/// share an identifier, the counter advances by their number, and requests
/// already waiting keep their slots.
pub proof fn lemma_consecutive_identifiers<S>(m: PendingModel<S>, slots: Seq<S>)
    requires
        m.wf(),
        m.next + slots.len() <= u64::MAX,
    ensures
        register_all(m, slots).wf(),
        register_all(m, slots).next == m.next + slots.len(),
        forall|i: int| 0 <= i < slots.len() ==> #[trigger] register_all(m, slots).slot_of(
            (m.next + i) as u64,
        ) == Some(slots[i]),
        forall|k: u64| m.slots.contains_key(k) ==> #[trigger] register_all(m, slots).slot_of(k) == m.slot_of(k),
    decreases slots.len(),
{
    if slots.len() > 0 {
        let m1 = m.registered(slots[0]);
        let rest = slots.drop_first();
        lemma_fresh_identifier(m, slots[0]);
        lemma_consecutive_identifiers(m1, rest);
        let r = register_all(m, slots);
        assert(r == register_all(m1, rest));
        assert forall|i: int| 0 <= i < slots.len() implies #[trigger] r.slot_of((m.next + i) as u64)
            == Some(slots[i]) by {
            if i == 0 {
                assert(m1.slots.contains_key(m.next as u64));
            } else {
                assert(rest[i - 1] == slots[i]);
                assert(r.slot_of((m1.next + (i - 1)) as u64) == Some(rest[i - 1]));
            }
        }
        assert forall|k: u64| m.slots.contains_key(k) implies #[trigger] r.slot_of(k) == m.slot_of(k) by {
            assert(m1.slots.contains_key(k));
        }
    }
}

/// Whatever registrations and settlements of other identifiers come in
/// between, in whatever order, the response for identifier `id` reaches the
/// slot that its own request filed, and no other.
pub proof fn lemma_response_reaches_its_caller<S>(
    m: PendingModel<S>,
    id: u64,
    steps: Seq<TableStep<S>>,
)
    requires
        m.wf(),
        m.slots.contains_key(id),
        !settles(steps, id),
    ensures
        run_steps(m, steps).wf(),
        run_steps(m, steps).slot_of(id) == m.slot_of(id),
    decreases steps.len(),
{
    if steps.len() > 0 {
        let m1 = match steps[0] {
            TableStep::Register(s) => if m.can_register() {
                m.registered(s)
            } else {
                m
            },
            TableStep::Settle(k) => m.settled(k),
        };
        let rest = steps.drop_first();
        assert(!settles(rest, id)) by {
            if settles(rest, id) {
                let i = choose|i: int| 0 <= i < rest.len() && rest[i] == TableStep::<S>::Settle(id);
                assert(steps[i + 1] == TableStep::<S>::Settle(id));
            }
        }
        assert(steps[0] != TableStep::<S>::Settle(id));
        assert(m1.wf());
        assert(m1.slots.contains_key(id));
        assert(m1.slot_of(id) == m.slot_of(id));
        lemma_response_reaches_its_caller(m1, id, rest);
    }
}

/// Once identifier `id` is settled, a late response for it finds no slot and
/// leaves the table as it is.
pub proof fn lemma_late_response_discarded<S>(m: PendingModel<S>, id: u64)
    requires
        m.wf(),
    ensures
        m.settled(id).wf(),
        m.settled(id).slot_of(id) is None,
        m.settled(id).settled(id) == m.settled(id),
{
    assert(m.settled(id).settled(id).slots =~= m.settled(id).slots);
}

} // verus!
