use std::collections::HashMap;
use std::collections::HashSet;
use vstd::prelude::*;
use crate::envelope::ResponseEnvelope;
use crate::envelope::ResponseView;

verus! {

broadcast use vstd::std_specs::hash::group_hash_axioms;

/// The first identifier a fresh `IdSource` hands out.
pub const FIRST_ID: u64 = 1;

/// What the waiter of a reply slot observes.
pub enum Poll {
    /// The slot is registered and nothing has been delivered yet.
    Waiting,
    /// A reply was delivered; the slot is consumed by this observation.
    Ready(ResponseEnvelope),
    /// The slot was discarded, or never existed, so no reply will come.
    Abandoned,
}

/// The state of a table of reply slots as mathematics.
pub struct CorrelatorView {
    /// The pending entries: registered and not yet resolved or discarded.
    pub pending: Set<u64>,
    /// Replies that were delivered into their slot and not yet taken by the waiter.
    pub delivered: Map<u64, ResponseView>,
}

/// What `IdSource::next_id` does to a source whose next identifier is `next`:
/// the next identifier after the call, and the one handed out, if any.
pub open spec fn next_id_step(next: nat) -> (nat, Option<u64>) {
    if next < u64::MAX {
        (next + 1, Some(next as u64))
    } else {
        (next, None)
    }
}

/// Hands out request identifiers: 1, 2, 3, ... each one once.
pub struct IdSource {
    next: u64,
}

impl View for IdSource {
    type V = nat;

    /// The identifier handed out next.
    closed spec fn view(&self) -> nat {
        self.next as nat
    }
}

impl IdSource {
    /// A source whose first identifier is `FIRST_ID`.
    pub fn new() -> (r: IdSource)
        ensures
            r@ == FIRST_ID,
    {
        IdSource { next: FIRST_ID }
    }

    /// Hands out a fresh identifier, greater than every one handed out before.
    /// Returns `None` only once the identifier space is used up.
    pub fn next_id(&mut self) -> (r: Option<u64>)
        ensures
            (final(self)@, r) == next_id_step(old(self)@),
    {
        if self.next == u64::MAX {
            None
        } else {
            let id = self.next;
            self.next = self.next + 1;
            Some(id)
        }
    }
}

/// Table of single-use reply slots, keyed by request identifier.
///
/// Each registered identifier is first *pending*; a matching reply moves it to
/// *delivered* (and out of the table of pending entries), from where the waiter
/// takes it exactly once. Discarding a pending entry drops it without a value,
/// which the waiter observes as abandonment.
pub struct Correlator {
    pending: HashSet<u64>,
    delivered: HashMap<u64, ResponseEnvelope>,
}

/// The view of the table of delivered replies.
pub open spec fn delivered_view(m: Map<u64, ResponseEnvelope>) -> Map<u64, ResponseView> {
    Map::new(|k: u64| m.contains_key(k), |k: u64| m[k]@)
}

/// The transition of `register`: whether it succeeds, and the state after.
/// An identifier that has a slot already cannot be registered again.
pub open spec fn register_step(v: CorrelatorView, id: u64) -> (CorrelatorView, bool) {
    if v.pending.contains(id) || v.delivered.contains_key(id) {
        (v, false)
    } else {
        (CorrelatorView { pending: v.pending.insert(id), ..v }, true)
    }
}

/// The transition of `resolve`: a reply for a pending identifier leaves the
/// pending entries and lands in its slot; any other reply changes nothing.
pub open spec fn resolve_step(v: CorrelatorView, id: u64, r: ResponseView) -> (
    CorrelatorView,
    bool,
) {
    if v.pending.contains(id) {
        (
            CorrelatorView { pending: v.pending.remove(id), delivered: v.delivered.insert(id, r) },
            true,
        )
    } else {
        (v, false)
    }
}

/// The transition of `discard`: the pending entry goes, without a value.
pub open spec fn discard_step(v: CorrelatorView, id: u64) -> CorrelatorView {
    CorrelatorView { pending: v.pending.remove(id), ..v }
}

/// The state after the waiter of `id` has polled its slot.
pub open spec fn take_step(v: CorrelatorView, id: u64) -> CorrelatorView {
    CorrelatorView { delivered: v.delivered.remove(id), ..v }
}

impl View for Correlator {
    type V = CorrelatorView;

    closed spec fn view(&self) -> CorrelatorView {
        CorrelatorView {
            pending: self.pending@,
            delivered: delivered_view(self.delivered@),
        }
    }
}

impl Correlator {
    /// The invariant of a table: no identifier is both pending and delivered.
    pub closed spec fn wf(&self) -> bool {
        self.pending@.disjoint(self.delivered@.dom())
    }

    /// An empty table.
    pub fn new() -> (r: Correlator)
        ensures
            r.wf(),
            r@.pending.is_empty(),
            r@.delivered.is_empty(),
    {
        let r = Correlator { pending: HashSet::new(), delivered: HashMap::new() };
        assert(r@.delivered =~= Map::empty());
        r
    }

    /// Creates the pending entry of `id`. Fails when `id` already has one, or
    /// its reply still waits in its slot.
    pub fn register(&mut self, id: u64) -> (r: bool)
        requires
            old(self).wf(),
        ensures
            final(self).wf(),
            (final(self)@, r) == register_step(old(self)@, id),
    {
        if self.pending.contains(&id) || self.delivered.contains_key(&id) {
            false
        } else {
            self.pending.insert(id);
            true
        }
    }

    /// Delivers `response` to the slot of `id` if `id` is pending, and says
    /// whether it did; an unknown or already resolved `id` changes nothing.
    pub fn resolve(&mut self, id: u64, response: ResponseEnvelope) -> (r: bool)
        requires
            old(self).wf(),
        ensures
            final(self).wf(),
            (final(self)@, r) == resolve_step(old(self)@, id, response@),
    {
        if self.pending.contains(&id) {
            self.pending.remove(&id);
            let ghost before = self.delivered@;
            self.delivered.insert(id, response);
            assert(delivered_view(self.delivered@) =~= delivered_view(before).insert(id, response@));
            assert(self.pending@ =~= old(self).pending@.remove(id));
            true
        } else {
            false
        }
    }

    /// Removes the pending entry of `id` without delivering a value.
    pub fn discard(&mut self, id: u64)
        requires
            old(self).wf(),
        ensures
            final(self).wf(),
            final(self)@ == discard_step(old(self)@, id),
    {
        self.pending.remove(&id);
        assert(self.pending@ =~= old(self).pending@.remove(id));
    }

    /// The waiter's view of the slot of `id`. A delivered reply is handed out
    /// once and leaves the correlator.
    pub fn take(&mut self, id: u64) -> (r: Poll)
        requires
            old(self).wf(),
        ensures
            final(self).wf(),
            final(self)@ == take_step(old(self)@, id),
            old(self)@.delivered.contains_key(id) ==> (r matches Poll::Ready(e) && e@
                == old(self)@.delivered[id]),
            !old(self)@.delivered.contains_key(id) && old(self)@.pending.contains(id) ==> r
                is Waiting,
            !old(self)@.delivered.contains_key(id) && !old(self)@.pending.contains(id) ==> r
                is Abandoned,
    {
        let ghost before = self.delivered@;
        match self.delivered.remove(&id) {
            Some(e) => {
                assert(delivered_view(self.delivered@) =~= delivered_view(before).remove(id));
                Poll::Ready(e)
            },
            None => {
                assert(delivered_view(self.delivered@) =~= delivered_view(before));
                assert(delivered_view(before) =~= delivered_view(before).remove(id));
                if self.pending.contains(&id) {
                    Poll::Waiting
                } else {
                    Poll::Abandoned
                }
            },
        }
    }

    /// Whether `id` has a pending entry.
    pub fn is_pending(&self, id: u64) -> (r: bool)
        ensures
            r == self@.pending.contains(id),
    {
        self.pending.contains(&id)
    }

    /// The number of pending entries.
    pub fn pending_count(&self) -> (r: usize)
        ensures
            r == self@.pending.len(),
    {
        self.pending.len()
    }
}

/// The shard, out of `shards`, that holds the slot of request `id`.
pub fn shard_of(id: u64, shards: usize) -> (r: usize)
    requires
        shards > 0,
    ensures
        r == id % (shards as u64),
        r < shards,
{
    (id % (shards as u64)) as usize
}

} // verus!
