//! Event related functionality: readiness flags, the polled entity, and the
//! blocking-wait handle.

use vstd::prelude::*;

verus! {

/// `POLLIN`: there is data to be read.
pub const POLL_IN: u32 = 0x0001;

/// `POLLPRI`: there is some exceptional condition on the resource.
pub const POLL_PRI: u32 = 0x0002;

/// `POLLOUT`: writing is now possible.
pub const POLL_OUT: u32 = 0x0004;

/// `POLLERR`: error condition (only reported; never requested).
pub const POLL_ERR: u32 = 0x0008;

/// `POLLHUP`: hang up (only reported; never requested).
pub const POLL_HUP: u32 = 0x0010;

/// `POLLNVAL`: invalid request (only reported; never requested).
pub const POLL_NVAL: u32 = 0x0020;

/// `POLLRDHUP`: stream peer closed its connection, or shut down writing.
pub const POLL_RDHUP: u32 = 0x2000;

/// The conditions that are reported to an observer regardless of its declared
/// interest: error, hang-up, and invalid-request can never be masked out.
pub const ALWAYS_POLLED: u32 = POLL_ERR | POLL_HUP | POLL_NVAL;

/// The interest mask an observer effectively has: its declared mask together
/// with the always-reported conditions.
pub open spec fn effective_mask(mask: u32) -> u32 {
    mask | ALWAYS_POLLED
}

/// Whether an active set wakes an observer with the given declared mask.
pub open spec fn mask_matches(active: u32, mask: u32) -> bool {
    active & effective_mask(mask) != 0
}

/// An open bit-set of readiness conditions.
///
/// The named constants above cover the closed reference vocabulary; all other
/// bits are host-specific extensions and are carried through unchanged, so
/// drivers can pass native readiness words in without a translation table.
#[derive(Clone, Copy, PartialEq, Eq, Structural, Debug)]
pub struct PollEvents {
    bits: u32,
}

impl View for PollEvents {
    type V = u32;

    closed spec fn view(&self) -> u32 {
        self.bits
    }
}

impl PollEvents {
    /// The empty set: no condition is active.
    pub fn empty() -> (r: Self)
        ensures
            r@ == 0u32,
    {
        PollEvents { bits: 0 }
    }

    /// The set with exactly the given bits, recognized or not.
    pub fn from_bits(bits: u32) -> (r: Self)
        ensures
            r@ == bits,
    {
        PollEvents { bits }
    }

    /// The underlying bits.
    pub fn bits(&self) -> (r: u32)
        ensures
            r == self@,
    {
        self.bits
    }

    /// Add every condition in `other` to this set.
    pub fn insert(&mut self, other: Self)
        ensures
            final(self)@ == old(self)@ | other@,
    {
        self.bits = self.bits | other.bits;
    }

    /// Clear every condition in `other` from this set.
    pub fn remove(&mut self, other: Self)
        ensures
            final(self)@ == old(self)@ & !other@,
    {
        self.bits = self.bits & !other.bits;
    }

    /// The union of the two sets.
    pub fn union(self, other: Self) -> (r: Self)
        ensures
            r@ == self@ | other@,
    {
        PollEvents { bits: self.bits | other.bits }
    }

    /// Whether no condition is active.
    pub fn is_empty(&self) -> (r: bool)
        ensures
            r == (self@ == 0u32),
    {
        self.bits == 0
    }

    /// Whether the two sets share at least one condition.
    pub fn intersects(&self, other: Self) -> (r: bool)
        ensures
            r == (self@ & other@ != 0),
    {
        self.bits & other.bits != 0
    }

    /// Whether every condition of `other` is in this set.
    pub fn contains(&self, other: Self) -> (r: bool)
        ensures
            r == (self@ & other@ == other@),
    {
        self.bits & other.bits == other.bits
    }

    /// This set widened with the always-reported conditions: the interest an
    /// observer declaring this set effectively has.
    pub fn effective(self) -> (r: Self)
        ensures
            r@ == effective_mask(self@),
    {
        PollEvents { bits: self.bits | ALWAYS_POLLED }
    }
}

/// One registered observer: the waiter it stands for, the conditions that
/// waiter declared interest in, and whether a notification for it is pending.
#[derive(Clone, Copy)]
struct Observer {
    id: u64,
    mask: PollEvents,
    pending: bool,
}

/// The mathematical value of one registry entry.
#[verifier::ext_equal]
pub ghost struct ObserverModel {
    pub id: u64,
    pub mask: u32,
    pub pending: bool,
}

impl View for Observer {
    type V = ObserverModel;

    closed spec fn view(&self) -> ObserverModel {
        ObserverModel { id: self.id, mask: self.mask@, pending: self.pending }
    }
}

/// The mathematical value of a [`Pollee`]: its active conditions and its
/// observer registry.
#[verifier::ext_equal]
pub ghost struct PolleeModel {
    pub active: u32,
    pub observers: Seq<ObserverModel>,
}

impl PolleeModel {
    /// Well-formedness: each waiter is registered at most once.
    pub open spec fn wf(self) -> bool {
        forall|i: int, j: int|
            0 <= i < j < self.observers.len() ==> self.observers[i].id != self.observers[j].id
    }

    /// Whether a waiter with this id is registered.
    pub open spec fn has_observer(self, id: u64) -> bool {
        exists|i: int| 0 <= i < self.observers.len() && self.observers[i].id == id
    }

    /// Whether a notification for this waiter is pending.
    pub open spec fn pending_for(self, id: u64) -> bool {
        exists|i: int|
            0 <= i < self.observers.len() && self.observers[i].id == id
                && self.observers[i].pending
    }
}

/// The registry with every entry of the given waiter removed.
pub open spec fn without_id(obs: Seq<ObserverModel>, id: u64) -> Seq<ObserverModel>
    decreases obs.len(),
{
    if obs.len() == 0 {
        Seq::empty()
    } else if obs.last().id == id {
        without_id(obs.drop_last(), id)
    } else {
        without_id(obs.drop_last(), id).push(obs.last())
    }
}

/// Every entry surviving `without_id` stood in the original registry, and
/// none of them belongs to the removed waiter.
pub proof fn lemma_without_id(obs: Seq<ObserverModel>, id: u64)
    ensures
        forall|i: int|
            0 <= i < without_id(obs, id).len() ==> #[trigger] without_id(obs, id)[i].id != id,
        forall|i: int|
            0 <= i < without_id(obs, id).len() ==> exists|j: int|
                0 <= j < obs.len() && obs[j] == #[trigger] without_id(obs, id)[i],
    decreases obs.len(),
{
    if obs.len() > 0 {
        lemma_without_id(obs.drop_last(), id);
        let prev = without_id(obs.drop_last(), id);
        assert forall|i: int|
            0 <= i < without_id(obs, id).len() implies #[trigger] without_id(obs, id)[i].id
            != id by {
            if i < prev.len() {
                assert(without_id(obs, id)[i] == prev[i]);
            } else {
                assert(without_id(obs, id)[i] == obs.last());
            }
        }
        assert forall|i: int| 0 <= i < without_id(obs, id).len() implies exists|j: int|
            0 <= j < obs.len() && obs[j] == #[trigger] without_id(obs, id)[i] by {
            if i < prev.len() {
                let j = choose|j: int| 0 <= j < obs.drop_last().len() && obs.drop_last()[j] == prev[i];
                assert(obs[j] == without_id(obs, id)[i]);
            } else {
                assert(obs[obs.len() - 1] == without_id(obs, id)[i]);
            }
        }
    }
}

/// Deregistration removes every entry of the given waiter and keeps the rest.
pub proof fn lemma_without_id_wf(m: PolleeModel, id: u64)
    requires
        m.wf(),
    ensures
        deregister_model(m, id).wf(),
        !deregister_model(m, id).has_observer(id),
{
    lemma_without_id(m.observers, id);
    let res = without_id(m.observers, id);
    assert forall|i: int, j: int| 0 <= i < j < res.len() implies res[i].id != res[j].id by {
        lemma_without_id_distinct(m.observers, id, i, j);
    }
}

proof fn lemma_without_id_distinct(obs: Seq<ObserverModel>, id: u64, i: int, j: int)
    requires
        forall|p: int, q: int| 0 <= p < q < obs.len() ==> obs[p].id != obs[q].id,
        0 <= i < j < without_id(obs, id).len(),
    ensures
        without_id(obs, id)[i].id != without_id(obs, id)[j].id,
    decreases obs.len(),
{
    if obs.len() > 0 {
        let prev = without_id(obs.drop_last(), id);
        if obs.last().id == id {
            lemma_without_id_distinct(obs.drop_last(), id, i, j);
        } else {
            if j < prev.len() {
                lemma_without_id_distinct(obs.drop_last(), id, i, j);
            } else {
                // `j` is the re-pushed last element; any earlier entry has a
                // different id because ids were distinct in `obs`.
                lemma_without_id(obs.drop_last(), id);
                let k = choose|k: int|
                    0 <= k < obs.drop_last().len() && obs.drop_last()[k] == prev[i];
                assert(obs[k] == prev[i]);
                assert(obs[k].id != obs.last().id);
            }
        }
    }
}

/// The registry after new readiness arrived: each observer whose effective
/// interest intersects the new active set gains a pending notification.
pub open spec fn notify_all(obs: Seq<ObserverModel>, active: u32) -> Seq<ObserverModel> {
    obs.map_values(
        |o: ObserverModel|
            ObserverModel {
                id: o.id,
                mask: o.mask,
                pending: o.pending || mask_matches(active, o.mask),
            },
    )
}

/// The pollee after `add_events`: the flags are unioned into the active set,
/// and every observer matching the new active set is notified.
pub open spec fn add_events_model(m: PolleeModel, events: u32) -> PolleeModel {
    PolleeModel { active: m.active | events, observers: notify_all(m.observers, m.active | events) }
}

/// The pollee after `remove_events`: flags are cleared; removal never
/// notifies, and pending notifications stay (spurious wakeups are tolerated).
pub open spec fn remove_events_model(m: PolleeModel, events: u32) -> PolleeModel {
    PolleeModel { active: m.active & !events, observers: m.observers }
}

/// The pollee after `reset_events`: the active set is cleared to empty.
pub open spec fn reset_events_model(m: PolleeModel) -> PolleeModel {
    PolleeModel { active: 0, observers: m.observers }
}

/// The pollee after registering a waiter: an existing entry for the same
/// waiter is replaced, otherwise a new entry is appended; either way, the
/// current active set is re-checked at once, so a match that fired before the
/// registration cannot be missed.
pub open spec fn register_model(m: PolleeModel, id: u64, mask: u32) -> PolleeModel {
    let entry = |o: ObserverModel|
        ObserverModel {
            id,
            mask,
            pending: o.pending || mask_matches(m.active, mask),
        };
    if m.has_observer(id) {
        PolleeModel {
            active: m.active,
            observers: m.observers.map_values(
                |o: ObserverModel| if o.id == id { entry(o) } else { o },
            ),
        }
    } else {
        PolleeModel {
            active: m.active,
            observers: m.observers.push(
                ObserverModel { id, mask, pending: mask_matches(m.active, mask) },
            ),
        }
    }
}

/// The pollee after deregistering a waiter: its entries are removed; a waiter
/// that was not registered leaves the pollee unchanged.
pub open spec fn deregister_model(m: PolleeModel, id: u64) -> PolleeModel {
    PolleeModel { active: m.active, observers: without_id(m.observers, id) }
}

/// The pollee after a waiter consumed its notification: that waiter's pending
/// flag is cleared, everything else is untouched.
pub open spec fn take_notification_model(m: PolleeModel, id: u64) -> PolleeModel {
    PolleeModel {
        active: m.active,
        observers: m.observers.map_values(
            |o: ObserverModel|
                if o.id == id {
                    ObserverModel { id: o.id, mask: o.mask, pending: false }
                } else {
                    o
                },
        ),
    }
}

/// A `Pollee` maintains a set of active [`PollEvents`] together with a
/// registry of interested observers; whenever readiness is added, every
/// observer whose effective interest intersects the new active set gets a
/// pending notification that its waiter can consume.
pub struct Pollee {
    active: PollEvents,
    observers: Vec<Observer>,
}

impl View for Pollee {
    type V = PolleeModel;

    closed spec fn view(&self) -> PolleeModel {
        PolleeModel {
            active: self.active@,
            observers: self.observers@.map_values(|o: Observer| o@),
        }
    }
}

impl Default for Pollee {
    /// The same as [`Pollee::new`].
    fn default() -> (p: Self)
        ensures
            p@.active == 0u32,
            p@.observers.len() == 0,
            p@.wf(),
    {
        Pollee::new()
    }
}

impl Pollee {
    /// Creates a new `Pollee` with no active condition and no observer.
    pub fn new() -> (p: Self)
        ensures
            p@.active == 0u32,
            p@.observers.len() == 0,
            p@.wf(),
    {
        Pollee { active: PollEvents::empty(), observers: Vec::new() }
    }

    /// Get the current active set of events; the always-reported conditions
    /// are part of it whenever they are set.
    pub fn events(&self) -> (r: PollEvents)
        ensures
            r@ == self@.active,
    {
        self.active
    }

    /// Add `events` to the active set, and deliver a notification to every
    /// registered observer whose effective interest intersects the new
    /// active set.
    pub fn add_events(&mut self, events: PollEvents)
        requires
            old(self)@.wf(),
        ensures
            final(self)@ == add_events_model(old(self)@, events@),
            final(self)@.wf(),
    {
        let ghost m0 = self@;
        self.active.insert(events);
        let active = self.active;
        let n = self.observers.len();
        let mut i: usize = 0;
        while i < n
            invariant
                n == self.observers.len(),
                m0.observers.len() == n,
                i <= n,
                self.active == active,
                active@ == m0.active | events@,
                forall|k: int|
                    0 <= k < i ==> self.observers@[k]@ == notify_all(m0.observers, active@)[k],
                forall|k: int| i <= k < n ==> self.observers@[k]@ == m0.observers[k],
            decreases n - i,
        {
            let mut o = self.observers[i];
            if active.intersects(o.mask.effective()) {
                o.pending = true;
            }
            self.observers[i] = o;
            proof {
                assert(self.observers@[i as int]@ == notify_all(m0.observers, active@)[i as int]);
            }
            i += 1;
        }
        proof {
            assert(self@.observers =~= notify_all(m0.observers, active@));
            assert(self@ =~= add_events_model(m0, events@));
        }
    }

    /// Remove `events` from the active set; removal itself never notifies,
    /// and notifications already pending are left in place (callers tolerate
    /// spurious wakeups).
    pub fn remove_events(&mut self, events: PollEvents)
        requires
            old(self)@.wf(),
        ensures
            final(self)@ == remove_events_model(old(self)@, events@),
            final(self)@.wf(),
    {
        self.active.remove(events);
        proof {
            assert(self@ =~= remove_events_model(old(self)@, events@));
        }
    }

    /// Reset the active set to empty; like removal, this never notifies.
    pub fn reset_events(&mut self)
        requires
            old(self)@.wf(),
        ensures
            final(self)@ == reset_events_model(old(self)@),
            final(self)@.wf(),
    {
        self.active = PollEvents::empty();
        proof {
            assert(self@ =~= reset_events_model(old(self)@));
        }
    }

    /// Register the waiter with the given id and interest mask. Registering
    /// an already-registered waiter replaces its mask rather than adding a
    /// second entry, so registration is idempotent. The current active set is
    /// re-checked immediately after registering: a matching event that fired
    /// before the registration leaves a pending notification rather than
    /// being missed.
    pub fn register_observer(&mut self, id: u64, mask: PollEvents)
        requires
            old(self)@.wf(),
        ensures
            final(self)@ == register_model(old(self)@, id, mask@),
            final(self)@.wf(),
            final(self)@.has_observer(id),
    {
        let ghost m0 = self@;
        let matched = self.active.intersects(mask.effective());
        let n = self.observers.len();
        let mut i: usize = 0;
        while i < n
            invariant
                n == self.observers.len(),
                m0.observers.len() == n,
                self@ == m0,
                m0 == old(self)@,
                m0.wf(),
                matched == mask_matches(m0.active, mask@),
                forall|k: int| 0 <= k < i ==> m0.observers[k].id != id,
            decreases n - i,
        {
            let o = self.observers[i];
            if o.id == id {
                proof {
                    assert(m0.observers[i as int] == o@);
                    assert(m0.has_observer(id));
                }
                let pending = o.pending || matched;
                self.observers[i] = Observer { id, mask, pending };
                proof {
                    assert forall|k: int| 0 <= k < n && k != i as int implies m0.observers[k].id
                        != id by {
                        if m0.observers[k].id == id {
                            if k < i as int {
                                assert(m0.observers[k].id != m0.observers[i as int].id);
                            } else {
                                assert(m0.observers[i as int].id != m0.observers[k].id);
                            }
                        }
                    }
                    assert(forall|k: int|
                        0 <= k < n ==> self@.observers[k] == register_model(
                            m0,
                            id,
                            mask@,
                        ).observers[k]);
                    assert(self@ =~= register_model(m0, id, mask@));
                    assert(self@.observers[i as int].id == id);
                }
                return ;
            }
            i += 1;
        }
        let pending = matched;
        self.observers.push(Observer { id, mask, pending });
        proof {
            assert(!m0.has_observer(id));
            assert(self@.observers =~= m0.observers.push(
                ObserverModel { id, mask: mask@, pending: mask_matches(m0.active, mask@) },
            ));
            assert(self@ =~= register_model(m0, id, mask@));
            assert(self@.observers[n as int].id == id);
        }
    }

    /// Deregister the waiter with the given id; deregistering a waiter that
    /// is not registered is a no-op, not an error.
    pub fn deregister_observer(&mut self, id: u64)
        requires
            old(self)@.wf(),
        ensures
            final(self)@ == deregister_model(old(self)@, id),
            final(self)@.wf(),
            !final(self)@.has_observer(id),
    {
        let ghost m0 = self@;
        let n = self.observers.len();
        let mut kept: Vec<Observer> = Vec::new();
        let mut i: usize = 0;
        while i < n
            invariant
                n == self.observers.len(),
                m0.observers.len() == n,
                self@ == m0,
                i <= n,
                kept@.map_values(|o: Observer| o@) == without_id(
                    m0.observers.take(i as int),
                    id,
                ),
            decreases n - i,
        {
            let o = self.observers[i];
            proof {
                assert(m0.observers.take(i + 1 as int).drop_last() =~= m0.observers.take(
                    i as int,
                ));
                assert(m0.observers.take(i + 1 as int).last() == m0.observers[i as int]);
            }
            if o.id != id {
                kept.push(o);
                proof {
                    assert(kept@.map_values(|o: Observer| o@) =~= without_id(
                        m0.observers.take(i + 1 as int),
                        id,
                    ));
                }
            }
            i += 1;
        }
        self.observers = kept;
        proof {
            assert(m0.observers.take(n as int) =~= m0.observers);
            assert(self@ =~= deregister_model(m0, id));
            lemma_without_id_wf(m0, id);
        }
    }

    /// Whether a notification is pending for the waiter with the given id,
    /// consuming it: a second call without new readiness reports nothing.
    /// Asking on behalf of a waiter that is not registered reports nothing.
    pub fn take_notification(&mut self, id: u64) -> (r: bool)
        requires
            old(self)@.wf(),
        ensures
            final(self)@ == take_notification_model(old(self)@, id),
            final(self)@.wf(),
            r == old(self)@.pending_for(id),
    {
        let ghost m0 = self@;
        let n = self.observers.len();
        let mut found = false;
        let mut i: usize = 0;
        while i < n
            invariant
                n == self.observers.len(),
                m0.observers.len() == n,
                i <= n,
                self@.active == m0.active,
                found == exists|k: int|
                    0 <= k < i && m0.observers[k].id == id && m0.observers[k].pending,
                forall|k: int|
                    0 <= k < i ==> self@.observers[k] == take_notification_model(
                        m0,
                        id,
                    ).observers[k],
                forall|k: int| i <= k < n ==> self@.observers[k] == m0.observers[k],
            decreases n - i,
        {
            let mut o = self.observers[i];
            if o.id == id {
                if o.pending {
                    found = true;
                }
                o.pending = false;
            }
            self.observers[i] = o;
            proof {
                assert(self@.observers[i as int] == take_notification_model(
                    m0,
                    id,
                ).observers[i as int]);
            }
            i += 1;
        }
        proof {
            assert(self@ =~= take_notification_model(m0, id));
        }
        found
    }

    /// Mark the underlying resource as gone: hang-up is raised, and because
    /// hang-up is an always-reported condition, every registered observer is
    /// notified whatever its declared interest — no waiter is left blocking
    /// on a dead pollee.
    pub fn close(&mut self)
        requires
            old(self)@.wf(),
        ensures
            final(self)@ == add_events_model(old(self)@, POLL_HUP),
            final(self)@.wf(),
            forall|i: int|
                0 <= i < final(self)@.observers.len() ==> final(self)@.observers[i].pending,
    {
        self.add_events(PollEvents::from_bits(POLL_HUP));
        proof {
            assert forall|i: int|
                0 <= i < self@.observers.len() implies self@.observers[i].pending by {
                let m0 = old(self)@;
                assert(self@.observers[i] == notify_all(m0.observers, m0.active | POLL_HUP)[i]);
                let mask = m0.observers[i].mask;
                let a = m0.active;
                assert((a | 0x0010u32) & (mask | (0x0008u32 | 0x0010u32 | 0x0020u32)) != 0)
                    by (bit_vector);
                assert(mask_matches(a | POLL_HUP, mask));
            }
        }
    }
}

/// One mutation of a pollee's active set, for reasoning about call
/// histories: `add_events`, `remove_events` and `reset_events` advance the
/// active set by exactly [`apply_op`] of the matching operation.
pub ghost enum EventOp {
    Add(u32),
    Remove(u32),
    Reset,
}

/// How one operation changes the active set; this is precisely what the
/// ensures of the three mutators state about `active`.
pub open spec fn apply_op(active: u32, op: EventOp) -> u32 {
    match op {
        EventOp::Add(e) => active | e,
        EventOp::Remove(e) => active & !e,
        EventOp::Reset => 0,
    }
}

/// The active set after a whole call history, oldest call first.
pub open spec fn apply_ops(active: u32, ops: Seq<EventOp>) -> u32
    decreases ops.len(),
{
    if ops.len() == 0 {
        active
    } else {
        apply_op(apply_ops(active, ops.drop_last()), ops.last())
    }
}

/// Whether this operation turns the given single flag on.
pub open spec fn op_sets(op: EventOp, flag: u32) -> bool {
    op matches EventOp::Add(e) && e & flag != 0
}

/// Whether this operation turns the given single flag off.
pub open spec fn op_clears(op: EventOp, flag: u32) -> bool {
    (op matches EventOp::Remove(e) && e & flag != 0) || op is Reset
}

/// The active set is exactly the fold of the call history: starting from the
/// empty set, a flag — an always-reported one no differently from any other —
/// is active after a sequence of `add_events`/`remove_events`/`reset_events`
/// calls precisely when some call added it and no later call removed or
/// reset it.
pub proof fn lemma_events_fold(ops: Seq<EventOp>, flag: u32)
    requires
        flag != 0,
        flag & ((flag - 1) as u32) == 0,
    ensures
        apply_ops(0, ops) & flag != 0 <==> exists|i: int|
            0 <= i < ops.len() && #[trigger] op_sets(ops[i], flag) && forall|j: int|
                i < j < ops.len() ==> !op_clears(ops[j], flag),
    decreases ops.len(),
{
    if ops.len() == 0 {
        assert(0u32 & flag == 0) by (bit_vector);
    } else {
        let prefix = ops.drop_last();
        let last = ops.last();
        let x = apply_ops(0, prefix);
        lemma_events_fold(prefix, flag);
        match last {
            EventOp::Add(e) => {
                assert((x | e) & flag != 0 <==> (x & flag != 0 || e & flag != 0))
                    by (bit_vector);
                if e & flag != 0 {
                    // the last call itself sets the flag, and nothing follows it
                    assert(op_sets(ops[ops.len() - 1], flag));
                } else if x & flag != 0 {
                    let i = choose|i: int|
                        0 <= i < prefix.len() && #[trigger] op_sets(prefix[i], flag)
                            && forall|j: int| i < j < prefix.len() ==> !op_clears(prefix[j], flag);
                    assert(op_sets(ops[i], flag));
                    assert forall|j: int| i < j < ops.len() implies !op_clears(ops[j], flag) by {
                        if j < ops.len() - 1 {
                            assert(ops[j] == prefix[j]);
                        }
                    }
                } else {
                    if exists|i: int|
                        0 <= i < ops.len() && #[trigger] op_sets(ops[i], flag) && forall|j: int|
                            i < j < ops.len() ==> !op_clears(ops[j], flag) {
                        let i = choose|i: int|
                            0 <= i < ops.len() && #[trigger] op_sets(ops[i], flag)
                                && forall|j: int| i < j < ops.len() ==> !op_clears(ops[j], flag);
                        assert(i < prefix.len());
                        assert(op_sets(prefix[i], flag));
                        assert forall|j: int| i < j < prefix.len() implies !op_clears(
                            prefix[j],
                            flag,
                        ) by {
                            assert(prefix[j] == ops[j]);
                        }
                        assert(x & flag != 0);
                    }
                }
            },
            EventOp::Remove(e) => {
                assert(flag & ((flag - 1) as u32) == 0 && flag != 0 ==> ((x & !e) & flag != 0
                    <==> (x & flag != 0 && e & flag == 0))) by (bit_vector);
                if e & flag != 0 {
                    // the last call clears the flag, so no earlier set survives
                    assert(op_clears(ops[ops.len() - 1], flag));
                    assert forall|i: int|
                        0 <= i < ops.len() && #[trigger] op_sets(ops[i], flag) implies !(forall|
                            j: int,
                        | i < j < ops.len() ==> !op_clears(ops[j], flag)) by {
                        assert(i < ops.len() - 1 || !op_sets(ops[i], flag));
                        assert(op_clears(ops[ops.len() - 1], flag));
                    }
                } else {
                    if x & flag != 0 {
                        let i = choose|i: int|
                            0 <= i < prefix.len() && #[trigger] op_sets(prefix[i], flag)
                                && forall|j: int|
                                i < j < prefix.len() ==> !op_clears(prefix[j], flag);
                        assert(op_sets(ops[i], flag));
                        assert forall|j: int| i < j < ops.len() implies !op_clears(ops[j], flag)
                            by {
                            if j < ops.len() - 1 {
                                assert(ops[j] == prefix[j]);
                            }
                        }
                    } else {
                        if exists|i: int|
                            0 <= i < ops.len() && #[trigger] op_sets(ops[i], flag) && forall|
                                j: int,
                            | i < j < ops.len() ==> !op_clears(ops[j], flag) {
                            let i = choose|i: int|
                                0 <= i < ops.len() && #[trigger] op_sets(ops[i], flag)
                                    && forall|j: int|
                                    i < j < ops.len() ==> !op_clears(ops[j], flag);
                            assert(i < prefix.len());
                            assert(op_sets(prefix[i], flag));
                            assert forall|j: int| i < j < prefix.len() implies !op_clears(
                                prefix[j],
                                flag,
                            ) by {
                                assert(prefix[j] == ops[j]);
                            }
                            assert(x & flag != 0);
                        }
                    }
                }
            },
            EventOp::Reset => {
                assert(0u32 & flag == 0) by (bit_vector);
                assert(op_clears(ops[ops.len() - 1], flag));
                assert forall|i: int|
                    0 <= i < ops.len() && #[trigger] op_sets(ops[i], flag) implies !(forall|j: int|
                    i < j < ops.len() ==> !op_clears(ops[j], flag)) by {
                    assert(i < ops.len() - 1 || !op_sets(ops[i], flag));
                    assert(op_clears(ops[ops.len() - 1], flag));
                }
            },
        }
    }
}

/// No missed wakeup: if `add_events` delivers flags that intersect an
/// observer's effective interest — its declared mask together with the
/// always-reported conditions — that observer holds a pending notification
/// once the call returns.
pub proof fn lemma_no_missed_wakeup(m: PolleeModel, events: u32, i: int)
    requires
        0 <= i < m.observers.len(),
        events & effective_mask(m.observers[i].mask) != 0,
    ensures
        add_events_model(m, events).observers[i].pending,
        add_events_model(m, events).pending_for(m.observers[i].id),
{
    let a = m.active;
    let e = events;
    let eff = effective_mask(m.observers[i].mask);
    assert(e & eff != 0 ==> (a | e) & eff != 0) by (bit_vector);
    assert(add_events_model(m, events).observers[i].pending);
    assert(add_events_model(m, events).observers[i].id == m.observers[i].id);
}

/// The register-then-recheck step closes the classic race: a waiter that
/// registers after a matching event already fired does not block forever
/// having missed it — the registration itself leaves the notification
/// pending.
pub proof fn lemma_register_recheck(m: PolleeModel, id: u64, mask: u32)
    requires
        m.wf(),
        mask_matches(m.active, mask),
    ensures
        register_model(m, id, mask).pending_for(id),
{
    let rm = register_model(m, id, mask);
    if m.has_observer(id) {
        let i = choose|i: int| 0 <= i < m.observers.len() && m.observers[i].id == id;
        assert(rm.observers[i].id == id && rm.observers[i].pending);
    } else {
        assert(rm.observers[m.observers.len() as int].pending);
    }
}

/// No use after deregistration: once a waiter is deregistered from a pollee,
/// a later `add_events` — whatever it delivers — leaves that waiter without
/// an entry and without a pending notification.
pub proof fn lemma_deregistered_never_notified(m: PolleeModel, id: u64, events: u32)
    requires
        m.wf(),
    ensures
        !add_events_model(deregister_model(m, id), events).has_observer(id),
        !add_events_model(deregister_model(m, id), events).pending_for(id),
{
    lemma_without_id(m.observers, id);
    let dm = deregister_model(m, id);
    let am = add_events_model(dm, events);
    assert(forall|i: int| 0 <= i < am.observers.len() ==> am.observers[i].id == dm.observers[i].id);
}

/// Why a blocked wait failed: the deadline expired, or an external
/// interruption unblocked the thread. The two are distinct so that a caller
/// can retry on interruption and give up on timeout.
#[derive(Clone, Copy, Debug, PartialEq, Eq, Structural)]
pub enum WaitError {
    /// Operation timed out.
    TimeOut,
    /// Operation was interrupted.
    Interrupted,
}

/// What the host's suspend primitive reported when a blocked thread resumed.
/// The primitive itself (a condition variable or equivalent) is host-specific
/// and lives outside this crate; the [`Poller`] only rules on its report.
#[derive(Clone, Copy, Debug, PartialEq, Eq, Structural)]
pub enum WakeSignal {
    /// The thread was woken, by a notification or spuriously.
    Wake,
    /// The deadline handed to the primitive expired before any wake.
    DeadlineExpired,
    /// An external interruption unblocked the thread.
    Interrupt,
}

/// A `Poller` gets notified when a [`Pollee`] it registered with has
/// interesting events. Notifications are coalesced: any number of pollees
/// firing between two waits collapse into one pending wake.
pub struct Poller {
    pending: bool,
}

impl Default for Poller {
    /// The same as [`Poller::new`].
    fn default() -> (r: Self)
        ensures
            !r.pending(),
    {
        Poller::new()
    }
}

impl Poller {
    /// Whether a coalesced notification is pending.
    pub closed spec fn pending(&self) -> bool {
        self.pending
    }

    /// Creates a new `Poller` with no pending notification.
    pub fn new() -> (r: Self)
        ensures
            !r.pending(),
    {
        Poller { pending: false }
    }

    /// Deliver a notification: plumbing calls this when a pollee this poller
    /// registered with reports a matching event. Repeated deliveries coalesce
    /// into a single pending wake.
    pub fn notify(&mut self)
        ensures
            final(self).pending(),
    {
        self.pending = true;
    }

    /// Wait until notified, never timing out.
    ///
    /// A pending notification is consumed and succeeds at once; the thread is
    /// suspended only otherwise, and `signal` is what the suspend primitive
    /// reported on resumption. A plain wake — a notification or a spurious
    /// one — succeeds: success means "something may have happened", and the
    /// caller re-checks the condition it actually cares about. An untimed
    /// wait never fails with a timeout, so a stray deadline report counts as
    /// a spurious wake; an interruption fails with the interruption error.
    pub fn wait(&mut self, signal: WakeSignal) -> (r: Result<(), WaitError>)
        ensures
            !final(self).pending(),
            old(self).pending() ==> r is Ok,
            !old(self).pending() ==> match signal {
                WakeSignal::Wake => r is Ok,
                WakeSignal::DeadlineExpired => r is Ok,
                WakeSignal::Interrupt => r == Err::<(), WaitError>(WaitError::Interrupted),
            },
    {
        if self.pending {
            self.pending = false;
            return Ok(());
        }
        self.pending = false;
        match signal {
            WakeSignal::Wake => Ok(()),
            WakeSignal::DeadlineExpired => Ok(()),
            WakeSignal::Interrupt => Err(WaitError::Interrupted),
        }
    }

    /// Wait until notified, failing once the caller's deadline expires.
    ///
    /// As with [`Poller::wait`], a pending notification succeeds at once and
    /// a plain wake succeeds; an expired deadline fails with the timeout
    /// error, an interruption with the interruption error, and the two are
    /// distinguishable by the caller.
    pub fn wait_timeout(&mut self, signal: WakeSignal) -> (r: Result<(), WaitError>)
        ensures
            !final(self).pending(),
            old(self).pending() ==> r is Ok,
            !old(self).pending() ==> match signal {
                WakeSignal::Wake => r is Ok,
                WakeSignal::DeadlineExpired => r == Err::<(), WaitError>(WaitError::TimeOut),
                WakeSignal::Interrupt => r == Err::<(), WaitError>(WaitError::Interrupted),
            },
    {
        if self.pending {
            self.pending = false;
            return Ok(());
        }
        self.pending = false;
        match signal {
            WakeSignal::Wake => Ok(()),
            WakeSignal::DeadlineExpired => Err(WaitError::TimeOut),
            WakeSignal::Interrupt => Err(WaitError::Interrupted),
        }
    }
}

} // verus!

