use vstd::prelude::*;

use crate::binding::{fresh_listens, handler_listens, rerender_handlers, HandlerView, Listen};
use crate::context::read_in_scope;
use crate::events::EventType;
use crate::key::KeyView;
use crate::state::{observed, observers_of, pending_views, written, AppStateView};

verus! {

/// Read after write: once `v` is written through the data slot `k`, a read
/// of `k`, in the scope of any view or of none, finds `v`.
pub proof fn lemma_read_after_write<V, C>(s: AppStateView<V, C>, k: KeyView, v: V, viewer: Option<KeyView>)
    ensures
        read_in_scope(written(s, k, v), k, viewer).data.contains_key(k),
        read_in_scope(written(s, k, v), k, viewer).data[k] == v,
{
}

/// Observer edges are never dropped: recording another observer and writing
/// through any data slot keep every view that observes `k`.
pub proof fn lemma_observers_kept<V, C>(s: AppStateView<V, C>, k: KeyView, v: KeyView, k2: KeyView, v2: KeyView, w: V)
    requires
        observers_of(s, k).contains(v),
    ensures
        observers_of(observed(s, k2, v2), k).contains(v),
        observers_of(written(s, k2, w), k).contains(v),
{
    if k2 == k {
        let obs = observers_of(s, k);
        if !obs.contains(v2) {
            let j = choose|j: int| 0 <= j < obs.len() && obs[j] == v;
            assert(obs.push(v2)[j] == v);
        }
    }
}

/// Dependency completeness: a view that read `k` is queued for re-rendering
/// by the next write through `k`.
pub proof fn lemma_reader_requeued<V, C>(s: AppStateView<V, C>, k: KeyView, v: KeyView, w: V)
    requires
        observers_of(s, k).contains(v),
    ensures
        written(s, k, w).queue.contains(v),
{
    let obs = observers_of(s, k);
    let j = choose|j: int| 0 <= j < obs.len() && obs[j] == v;
    assert(written(s, k, w).queue[s.queue.len() + j] == v);
}

/// A read of `k` in the scope of view `v` makes `v` an observer of `k`.
pub proof fn lemma_read_observes<V, C>(s: AppStateView<V, C>, k: KeyView, v: KeyView)
    ensures
        observers_of(read_in_scope(s, k, Some(v)), k).contains(v),
{
    let obs = observers_of(s, k);
    if !obs.contains(v) {
        assert(obs.push(v)[obs.len() as int] == v);
    }
}

/// A drain re-renders each queued view that is mounted, exactly once, and
/// nothing else.
pub proof fn lemma_drain_once(q: Seq<KeyView>, live: Set<KeyView>)
    ensures
        pending_views(q, live).no_duplicates(),
        forall|k: KeyView| #[trigger] pending_views(q, live).contains(k) <==> (q.contains(k) && live.contains(k)),
    decreases q.len(),
{
    if q.len() > 0 {
        let dq = q.drop_last();
        lemma_drain_once(dq, live);
        let prev = pending_views(dq, live);
        let p = pending_views(q, live);
        let x = q.last();
        assert forall|k: KeyView| #[trigger] p.contains(k) <==> (q.contains(k) && live.contains(k)) by {
            assert(prev.contains(k) <==> (dq.contains(k) && live.contains(k)));
            if dq.contains(k) {
                let j = choose|j: int| 0 <= j < dq.len() && dq[j] == k;
                assert(q[j] == k);
            }
            if q.contains(k) {
                let j = choose|j: int| 0 <= j < q.len() && q[j] == k;
                if j < q.len() - 1 {
                    assert(dq[j] == k);
                }
            }
            if prev.contains(k) {
                let i = choose|i: int| 0 <= i < prev.len() && prev[i] == k;
                if p != prev {
                    assert(p[i] == k);
                }
            }
            if p != prev {
                assert(p == prev.push(x));
                assert(p[prev.len() as int] == x);
                if p.contains(k) && k != x {
                    let i = choose|i: int| 0 <= i < p.len() && p[i] == k;
                    assert(prev[i] == k);
                }
            }
        }
    }
}

/// Draining an empty queue re-renders nothing, so it writes nothing to the
/// host document.
pub proof fn lemma_empty_drain(live: Set<KeyView>)
    ensures
        pending_views(Seq::<KeyView>::empty(), live).len() == 0,
{
}

/// Whether a node is outside `registered`.
pub open spec fn unseen(registered: Seq<u64>) -> spec_fn(u64) -> bool {
    |n: u64| !registered.contains(n)
}

/// No duplicate listeners: after a re-render, a selector-scoped handler gets
/// a listener for a matched node only if it did not hold that node before,
/// gets exactly one for each such match, at that match's index and in match
/// order, and gets as many as there are such matches.
pub proof fn lemma_fresh_listens(registered: Seq<u64>, matches: Seq<u64>, event: EventType, callback: u64)
    requires
        matches.len() <= usize::MAX,
    ensures
        forall|j: int| #![trigger fresh_listens(registered, matches, event, callback)[j]]
            0 <= j < fresh_listens(registered, matches, event, callback).len() ==> {
            let l = fresh_listens(registered, matches, event, callback);
            &&& !registered.contains(l[j].node)
            &&& (l[j].index as int) < matches.len()
            &&& matches[l[j].index as int] == l[j].node
            &&& l[j].event == event
            &&& l[j].callback == callback
        },
        forall|j1: int, j2: int| 0 <= j1 < j2 < fresh_listens(registered, matches, event, callback).len()
            ==> #[trigger] fresh_listens(registered, matches, event, callback)[j1].index
                < #[trigger] fresh_listens(registered, matches, event, callback)[j2].index,
        forall|i: int| 0 <= i < matches.len() && !registered.contains(#[trigger] matches[i])
            ==> fresh_listens(registered, matches, event, callback).contains(
                Listen { node: matches[i], event, callback, index: i as usize },
            ),
        fresh_listens(registered, matches, event, callback).len() == matches.filter(unseen(registered)).len(),
    decreases matches.len(),
{
    let pred = unseen(registered);
    reveal(Seq::filter);
    if matches.len() > 0 {
        let prev_m = matches.drop_last();
        lemma_fresh_listens(registered, prev_m, event, callback);
        let prev = fresh_listens(registered, prev_m, event, callback);
        let l = fresh_listens(registered, matches, event, callback);
        let last = matches.len() - 1;
        let x = Listen { node: matches[last], event, callback, index: last as usize };
        assert(l == if registered.contains(matches[last]) { prev } else { prev.push(x) });
        assert(matches.filter(pred).len() == prev_m.filter(pred).len() + if pred(matches[last]) { 1int } else { 0int });
        assert forall|j: int| 0 <= j < l.len() implies {
            &&& !registered.contains(#[trigger] l[j].node)
            &&& (l[j].index as int) < matches.len()
            &&& matches[l[j].index as int] == l[j].node
            &&& l[j].event == event
            &&& l[j].callback == callback
        } by {
            if j < prev.len() {
                assert(l[j] == prev[j]);
                assert(!registered.contains(prev[j].node));
                assert(prev_m[prev[j].index as int] == matches[prev[j].index as int]);
            }
        }
        assert forall|j1: int, j2: int| 0 <= j1 < j2 < l.len() implies l[j1].index < l[j2].index by {
            assert(l[j1] == prev[j1]);
            assert(!registered.contains(prev[j1].node));
            if j2 < prev.len() {
                assert(l[j2] == prev[j2]);
                assert(prev[j1].index < prev[j2].index);
            } else {
                assert(l[j2] == x);
            }
        }
        assert forall|i: int| 0 <= i < matches.len() && !registered.contains(#[trigger] matches[i])
            implies l.contains(Listen { node: matches[i], event, callback, index: i as usize }) by {
            if i < last {
                assert(prev_m[i] == matches[i]);
                assert(!registered.contains(prev_m[i]));
                let j = choose|j: int| 0 <= j < prev.len() && prev[j] == Listen { node: prev_m[i], event, callback, index: i as usize };
                assert(l[j] == prev[j]);
            } else {
                assert(l[prev.len() as int] == x);
            }
        }
    }
}

/// The handlers after a sequence of re-renders, with the matches of each
/// round in turn.
pub open spec fn rerender_rounds(hs: Seq<HandlerView>, rounds: Seq<Seq<Seq<u64>>>) -> Seq<HandlerView>
    decreases rounds.len(),
{
    if rounds.len() == 0 {
        hs
    } else {
        rerender_handlers(rerender_rounds(hs, rounds.drop_last()), rounds.last())
    }
}

/// Root-handler durability: over any number of re-renders a root-level
/// handler stays where it is, unchanged, the number of handlers does not
/// change, and no re-render asks for another listener for it.
pub proof fn lemma_root_handler_durable(hs: Seq<HandlerView>, rounds: Seq<Seq<Seq<u64>>>, i: int)
    requires
        0 <= i < hs.len(),
        hs[i].selector is None,
    ensures
        rerender_rounds(hs, rounds).len() == hs.len(),
        rerender_rounds(hs, rounds)[i] == hs[i],
        forall|r: int| 0 <= r < rounds.len()
            ==> #[trigger] handler_listens(rerender_rounds(hs, rounds.take(r))[i], rounds[r][i]).len() == 0,
    decreases rounds.len(),
{
    if rounds.len() > 0 {
        let prev = rounds.drop_last();
        lemma_root_handler_durable(hs, prev, i);
        assert forall|r: int| 0 <= r < rounds.len()
            implies #[trigger] handler_listens(rerender_rounds(hs, rounds.take(r))[i], rounds[r][i]).len() == 0 by {
            if r < prev.len() {
                assert(rounds.take(r) =~= prev.take(r));
                assert(rounds[r] == prev[r]);
            } else {
                assert(rounds.take(r) =~= prev);
            }
        }
    }
}

} // verus!
