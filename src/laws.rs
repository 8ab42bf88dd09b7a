use vstd::prelude::*;
use crate::correlator::discard_step;
use crate::correlator::next_id_step;
use crate::correlator::register_step;
use crate::correlator::resolve_step;
use crate::correlator::CorrelatorView;
use crate::envelope::ResponseView;

verus! {

/// The identifiers that `calls` successive calls of `next_id` hand out,
/// starting from `next`, and the next identifier after them.
pub open spec fn issued(next: nat, calls: nat) -> (nat, Seq<u64>)
    decreases calls,
{
    if calls == 0 {
        (next, Seq::empty())
    } else {
        let (before, ids) = issued(next, (calls - 1) as nat);
        let (after, id) = next_id_step(before);
        match id {
            Some(id) => (after, ids.push(id)),
            None => (after, ids),
        }
    }
}

/// The identifiers handed out during a run are strictly increasing, hence
/// pairwise distinct; each is at least the starting one and below the next.
pub proof fn lemma_ids_strictly_increase(next: nat, calls: nat)
    ensures
        ({
            let (after, ids) = issued(next, calls);
            &&& next <= after
            &&& forall|i: int, j: int|
                0 <= i < j < ids.len() ==> #[trigger] ids[i] < #[trigger] ids[j]
            &&& forall|i: int| 0 <= i < ids.len() ==> next <= #[trigger] ids[i] < after
        }),
    decreases calls,
{
    if calls > 0 {
        lemma_ids_strictly_increase(next, (calls - 1) as nat);
    }
}

/// Hands each reply, in order, to `resolve` under its own identifier.
pub open spec fn ingest_all(v: CorrelatorView, replies: Seq<ResponseView>) -> CorrelatorView
    decreases replies.len(),
{
    if replies.len() == 0 {
        v
    } else {
        let before = ingest_all(v, replies.drop_last());
        resolve_step(before, replies.last().request_id, replies.last()).0
    }
}

/// Whether every delivered reply sits in the slot of its own identifier.
pub open spec fn delivered_to_own_id(v: CorrelatorView) -> bool {
    forall|k: u64| #[trigger] v.delivered.contains_key(k) ==> v.delivered[k].request_id == k
}

/// Replies are never delivered across requests: whatever replies arrive, in
/// whatever order, each slot that receives one receives a reply that carries
/// its own identifier, and one that actually arrived (or was there before).
pub proof fn lemma_no_cross_delivery(v: CorrelatorView, replies: Seq<ResponseView>)
    requires
        delivered_to_own_id(v),
    ensures
        delivered_to_own_id(ingest_all(v, replies)),
        forall|k: u64| #[trigger]
            ingest_all(v, replies).delivered.contains_key(k) ==> v.delivered.contains_key(k)
                || exists|i: int|
                0 <= i < replies.len() && replies[i] == ingest_all(v, replies).delivered[k],
    decreases replies.len(),
{
    if replies.len() > 0 {
        let prefix = replies.drop_last();
        lemma_no_cross_delivery(v, prefix);
        let after = ingest_all(v, replies);
        assert forall|k: u64| #[trigger]
            after.delivered.contains_key(k) implies v.delivered.contains_key(k) || exists|i: int|
            0 <= i < replies.len() && replies[i] == after.delivered[k] by {
            let before = ingest_all(v, prefix);
            if k == replies.last().request_id && before.pending.contains(k) {
                assert(replies[replies.len() - 1] == after.delivered[k]);
            } else {
                assert(before.delivered.contains_key(k));
                if !v.delivered.contains_key(k) {
                    let i = choose|i: int|
                        0 <= i < prefix.len() && prefix[i] == before.delivered[k];
                    assert(replies[i] == after.delivered[k]);
                }
            }
        }
    }
}

/// The order in which replies for two different requests arrive does not
/// matter: both orders end in the same state and deliver the same replies.
pub proof fn lemma_reply_order_irrelevant(v: CorrelatorView, a: ResponseView, b: ResponseView)
    requires
        a.request_id != b.request_id,
    ensures
        ingest_all(v, seq![a, b]) == ingest_all(v, seq![b, a]),
{
    assert(seq![a, b].drop_last() =~= seq![a]);
    assert(seq![b, a].drop_last() =~= seq![b]);
    assert(seq![a].drop_last() =~= Seq::<ResponseView>::empty());
    assert(seq![b].drop_last() =~= Seq::<ResponseView>::empty());
    reveal_with_fuel(ingest_all, 3);
    let va = resolve_step(v, a.request_id, a).0;
    let vb = resolve_step(v, b.request_id, b).0;
    assert(ingest_all(v, seq![a]) == va);
    assert(ingest_all(v, seq![b]) == vb);
    let ab = resolve_step(va, b.request_id, b).0;
    let ba = resolve_step(vb, a.request_id, a).0;
    assert(ingest_all(v, seq![a, b]) == ab);
    assert(ingest_all(v, seq![b, a]) == ba);
    assert(ab.pending =~= ba.pending);
    assert(ab.delivered =~= ba.delivered);
}

/// A reply whose identifier has no pending entry is dropped: nothing changes
/// and nothing is delivered.
pub proof fn lemma_unknown_reply_dropped(v: CorrelatorView, r: ResponseView)
    requires
        !v.pending.contains(r.request_id),
    ensures
        resolve_step(v, r.request_id, r) == (v, false),
{
}

/// A second reply for a request that was resolved already is dropped without
/// effect, whatever it holds.
pub proof fn lemma_second_reply_dropped(v: CorrelatorView, first: ResponseView, second: ResponseView)
    requires
        first.request_id == second.request_id,
    ensures
        ({
            let after = resolve_step(v, first.request_id, first).0;
            resolve_step(after, second.request_id, second) == (after, false)
        }),
{
}

/// When a request's emission fails, discarding its fresh entry leaves the
/// table as it was before the request came.
pub proof fn lemma_failed_emission_leaves_no_entry(v: CorrelatorView, id: u64)
    requires
        !v.pending.contains(id),
        !v.delivered.contains_key(id),
    ensures
        ({
            let (registered, fresh) = register_step(v, id);
            let after = discard_step(registered, id);
            &&& fresh
            &&& !after.pending.contains(id)
            &&& after == v
        }),
{
    let (registered, _) = register_step(v, id);
    assert(discard_step(registered, id).pending =~= v.pending);
}

} // verus!
