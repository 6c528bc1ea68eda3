//! The mathematical model of the liveness tally and the laws it obeys.
//!
//! A maintenance pass folds the drained signals, in the order they were
//! received, over the per-id counts; every id whose count falls to zero on a
//! decrease is recorded as pending, and the pending ids are then evicted.
use vstd::prelude::*;

use crate::handle::ReferenceCountSignal;
use crate::Asset;

verus! {

/// The raw id that a signal speaks of.
pub open spec fn signal_key<A: Asset>(signal: ReferenceCountSignal<A>) -> u32 {
    match signal {
        ReferenceCountSignal::Increase(id) => id.spec_value(),
        ReferenceCountSignal::Decrease(id) => id.spec_value(),
    }
}

/// The per-id counts and the ids whose count fell to zero, in that order.
pub struct Tally {
    pub counts: Map<u32, u32>,
    pub pending: Seq<u32>,
}

/// How one signal moves the live count of `key`.
pub open spec fn signal_delta<A: Asset>(signal: ReferenceCountSignal<A>, key: u32) -> int {
    match signal {
        ReferenceCountSignal::Increase(id) => if id.spec_value() == key { 1 } else { 0 },
        ReferenceCountSignal::Decrease(id) => if id.spec_value() == key { -1 } else { 0 },
    }
}

/// Net number of handles for `key` that the signals create.
pub open spec fn net_change<A: Asset>(signals: Seq<ReferenceCountSignal<A>>, key: u32) -> int
    decreases signals.len(),
{
    if signals.len() == 0 {
        0
    } else {
        net_change(signals.drop_last(), key) + signal_delta(signals.last(), key)
    }
}

/// The counts and pending ids after one more signal; `None` when the signal
/// names an id with no entry, would take a count below zero, or above
/// `u32::MAX`.
pub open spec fn tally_step<A: Asset>(
    counts: Map<u32, u32>,
    pending: Seq<u32>,
    signal: ReferenceCountSignal<A>,
) -> Option<Tally> {
    let key = signal_key(signal);
    if !counts.contains_key(key) {
        None
    } else {
        match signal {
            ReferenceCountSignal::Increase(_) => if counts[key] < u32::MAX {
                Some(Tally { counts: counts.insert(key, (counts[key] + 1) as u32), pending })
            } else {
                None
            },
            ReferenceCountSignal::Decrease(_) => if counts[key] > 0 {
                let n = (counts[key] - 1) as u32;
                Some(
                    Tally {
                        counts: counts.insert(key, n),
                        pending: if n == 0 { pending.push(key) } else { pending },
                    },
                )
            } else {
                None
            },
        }
    }
}

/// The counts and pending ids after folding all `signals` in order.
pub open spec fn tally<A: Asset>(
    counts: Map<u32, u32>,
    pending: Seq<u32>,
    signals: Seq<ReferenceCountSignal<A>>,
) -> Option<Tally>
    decreases signals.len(),
{
    if signals.len() == 0 {
        Some(Tally { counts, pending })
    } else {
        match tally(counts, pending, signals.drop_last()) {
            Some(t) => tally_step(t.counts, t.pending, signals.last()),
            None => None,
        }
    }
}

/// The state that a maintenance pass leaves behind.
pub struct PassOutcome<V> {
    pub assets: Map<u32, V>,
    pub counts: Map<u32, u32>,
    pub removed: Seq<u32>,
}

/// What a maintenance pass leaves: the assets and counts with every pending
/// id removed, and the pending ids themselves.
pub open spec fn maintained<A: Asset, V>(
    assets: Map<u32, V>,
    counts: Map<u32, u32>,
    signals: Seq<ReferenceCountSignal<A>>,
) -> Option<PassOutcome<V>> {
    match tally(counts, Seq::empty(), signals) {
        Some(t) => Some(
            PassOutcome {
                assets: assets.remove_keys(t.pending.to_set()),
                counts: t.counts.remove_keys(t.pending.to_set()),
                removed: t.pending,
            },
        ),
        None => None,
    }
}

/// Once a signal breaks the tally, no later signal repairs it.
pub proof fn lemma_tally_failure_persists<A: Asset>(
    counts: Map<u32, u32>,
    pending: Seq<u32>,
    signals: Seq<ReferenceCountSignal<A>>,
    k: int,
)
    requires
        0 <= k <= signals.len(),
        tally(counts, pending, signals.take(k)) is None,
    ensures
        tally(counts, pending, signals) is None,
    decreases signals.len() - k,
{
    if k < signals.len() {
        assert(signals.take(k + 1).drop_last() =~= signals.take(k));
        lemma_tally_failure_persists(counts, pending, signals, k + 1);
    } else {
        assert(signals.take(k) =~= signals);
    }
}

/// Folding signals never adds or removes an entry of the count table.
pub proof fn lemma_tally_keeps_keys<A: Asset>(
    counts: Map<u32, u32>,
    pending: Seq<u32>,
    signals: Seq<ReferenceCountSignal<A>>,
)
    requires
        tally(counts, pending, signals) is Some,
    ensures
        tally(counts, pending, signals)->0.counts.dom() == counts.dom(),
    decreases signals.len(),
{
    if signals.len() > 0 {
        lemma_tally_keeps_keys(counts, pending, signals.drop_last());
        let t = tally(counts, pending, signals.drop_last())->0;
        assert(tally_step(t.counts, t.pending, signals.last())->0.counts.dom() =~= t.counts.dom());
    }
}

/// Liveness: an id whose count stays positive after every signal of a pass,
/// as it does while some handle for it outlives the pass, is not pending, so
/// the pass keeps it; its count is then its old count plus the net number of
/// handles the signals created.
pub proof fn lemma_held_asset_survives<A: Asset>(
    counts: Map<u32, u32>,
    pending: Seq<u32>,
    signals: Seq<ReferenceCountSignal<A>>,
    key: u32,
)
    requires
        counts.contains_key(key),
        !pending.contains(key),
        tally(counts, pending, signals) is Some,
        forall|k: int|
            0 < k <= signals.len() ==> counts[key] + #[trigger] net_change(signals.take(k), key) > 0,
    ensures
        tally(counts, pending, signals)->0.counts.contains_key(key),
        tally(counts, pending, signals)->0.counts[key] == counts[key] + net_change(signals, key),
        !tally(counts, pending, signals)->0.pending.contains(key),
    decreases signals.len(),
{
    if signals.len() > 0 {
        let prefix = signals.drop_last();
        assert forall|k: int| 0 < k <= prefix.len() implies counts[key] + #[trigger] net_change(
            prefix.take(k),
            key,
        ) > 0 by {
            assert(prefix.take(k) =~= signals.take(k));
        }
        lemma_held_asset_survives(counts, pending, prefix, key);
        assert(signals.take(signals.len() as int) =~= signals);
        assert(counts[key] + net_change(signals.take(signals.len() as int), key) > 0);
        let t = tally(counts, pending, prefix)->0;
        assert(net_change(signals, key) == net_change(prefix, key) + signal_delta(signals.last(), key));
        let s = signals.last();
        if signal_key(s) == key {
            match s {
                ReferenceCountSignal::Decrease(_) => {
                    assert(t.counts[key] - 1 > 0);
                },
                ReferenceCountSignal::Increase(_) => {},
            }
        } else {
            let n = tally_step(t.counts, t.pending, s)->0;
            assert(n.counts[key] == t.counts[key]);
            match s {
                ReferenceCountSignal::Decrease(_) => {
                    if (t.counts[signal_key(s)] - 1) as u32 == 0 {
                        assert(t.pending.push(signal_key(s)).contains(key) ==> t.pending.contains(key)) by {
                            if t.pending.push(signal_key(s)).contains(key) {
                                let i = choose|i: int|
                                    0 <= i < t.pending.push(signal_key(s)).len() && t.pending.push(
                                        signal_key(s),
                                    )[i] == key;
                                assert(i < t.pending.len());
                                assert(t.pending[i] == key);
                            }
                        }
                    }
                },
                ReferenceCountSignal::Increase(_) => {},
            }
        }
    }
}

/// Whether some signal in `signals` speaks of `key`.
pub open spec fn mentions<A: Asset>(signals: Seq<ReferenceCountSignal<A>>, key: u32) -> bool {
    exists|i: int| 0 <= i < signals.len() && #[trigger] signal_key(signals[i]) == key
}

/// During a tally a count only stands at zero if its id was recorded as
/// pending, or if it stood at zero from the start and no signal named it.
proof fn lemma_zero_count_is_pending<A: Asset>(
    counts: Map<u32, u32>,
    pending: Seq<u32>,
    signals: Seq<ReferenceCountSignal<A>>,
    key: u32,
)
    requires
        tally(counts, pending, signals) is Some,
        counts.contains_key(key),
    ensures
        pending.contains(key) ==> tally(counts, pending, signals)->0.pending.contains(key),
        tally(counts, pending, signals)->0.counts[key] == 0 ==> tally(
            counts,
            pending,
            signals,
        )->0.pending.contains(key) || (counts[key] == 0 && !mentions(signals, key)),
    decreases signals.len(),
{
    if signals.len() > 0 {
        let prefix = signals.drop_last();
        lemma_zero_count_is_pending(counts, pending, prefix, key);
        lemma_tally_keeps_keys(counts, pending, prefix);
        let t = tally(counts, pending, prefix)->0;
        let s = signals.last();
        let n = tally_step(t.counts, t.pending, s)->0;
        assert forall|x: u32| t.pending.contains(x) implies n.pending.contains(x) by {
            let i = choose|i: int| 0 <= i < t.pending.len() && t.pending[i] == x;
            assert(n.pending.len() >= t.pending.len());
            assert(n.pending[i] == x);
        }
        if signal_key(s) == key {
            match s {
                ReferenceCountSignal::Decrease(_) => {
                    if n.counts[key] == 0 {
                        assert(n.pending[n.pending.len() - 1] == key);
                    }
                },
                ReferenceCountSignal::Increase(_) => {},
            }
            assert(signal_key(signals[signals.len() - 1]) == key);
        } else {
            assert(n.counts[key] == t.counts[key]);
            if mentions(signals, key) {
                let i = choose|i: int| 0 <= i < signals.len() && #[trigger] signal_key(signals[i]) == key;
                assert(i < prefix.len());
                assert(prefix[i] == signals[i]);
                assert(mentions(prefix, key));
            }
        }
    }
}

/// Liveness between passes: after a pass, every id still stored is counted
/// as held by at least one handle, unless it entered the pass with a count of
/// zero and no signal about it arrived.
pub proof fn lemma_pass_keeps_only_held_assets<A: Asset, V>(
    assets: Map<u32, V>,
    counts: Map<u32, u32>,
    signals: Seq<ReferenceCountSignal<A>>,
    key: u32,
)
    requires
        maintained(assets, counts, signals) is Some,
        maintained(assets, counts, signals)->0.counts.contains_key(key),
    ensures
        maintained(assets, counts, signals)->0.counts[key] > 0 || (counts[key] == 0 && !mentions(
            signals,
            key,
        )),
{
    lemma_tally_keeps_keys(counts, Seq::empty(), signals);
    lemma_zero_count_is_pending(counts, Seq::empty(), signals, key);
}

/// Cloning a handle and dropping the clone before the next pass changes
/// nothing that the pass decides, provided the id is held by some handle.
pub proof fn lemma_clone_then_drop_is_neutral<A: Asset>(
    counts: Map<u32, u32>,
    signals: Seq<ReferenceCountSignal<A>>,
    id: crate::handle::HandleId<A>,
)
    requires
        tally(counts, Seq::empty(), signals) is Some,
        tally(counts, Seq::empty(), signals)->0.counts.contains_key(id.spec_value()),
        1 <= tally(counts, Seq::empty(), signals)->0.counts[id.spec_value()] < u32::MAX,
    ensures
        tally(
            counts,
            Seq::empty(),
            signals.push(ReferenceCountSignal::Increase(id)).push(
                ReferenceCountSignal::Decrease(id),
            ),
        ) == tally(counts, Seq::empty(), signals),
{
    let once = signals.push(ReferenceCountSignal::Increase(id));
    let twice = once.push(ReferenceCountSignal::Decrease(id));
    assert(twice.drop_last() =~= once);
    assert(once.drop_last() =~= signals);
    let t = tally(counts, Seq::empty(), signals)->0;
    let k = id.spec_value();
    let up = t.counts.insert(k, (t.counts[k] + 1) as u32);
    assert(tally(counts, Seq::empty(), once) == Some(Tally { counts: up, pending: t.pending }));
    assert(up.insert(k, (up[k] - 1) as u32) =~= t.counts);
    assert(tally(counts, Seq::empty(), twice) == Some(
        Tally { counts: up.insert(k, (up[k] - 1) as u32), pending: t.pending },
    ));
}

/// Right after a pass, cloning a held handle and dropping the clone leaves the
/// next pass with nothing to do: the assets, the counts and the empty list of
/// evicted ids all stay as they were.
pub proof fn lemma_clone_then_drop_pass<A: Asset, V>(
    assets: Map<u32, V>,
    counts: Map<u32, u32>,
    id: crate::handle::HandleId<A>,
)
    requires
        counts.contains_key(id.spec_value()),
        1 <= counts[id.spec_value()] < u32::MAX,
    ensures
        maintained(
            assets,
            counts,
            seq![ReferenceCountSignal::Increase(id), ReferenceCountSignal::Decrease(id)],
        ) == Some(PassOutcome { assets, counts, removed: Seq::<u32>::empty() }),
{
    let none = Seq::<ReferenceCountSignal<A>>::empty();
    assert(tally(counts, Seq::empty(), none) == Some(
        Tally { counts, pending: Seq::<u32>::empty() },
    ));
    lemma_clone_then_drop_is_neutral(counts, none, id);
    assert(none.push(ReferenceCountSignal::Increase(id)).push(ReferenceCountSignal::Decrease(id))
        =~= seq![ReferenceCountSignal::Increase(id), ReferenceCountSignal::Decrease(id)]);
    lemma_quiet_pass_is_noop::<A, V>(assets, counts);
}

/// Whatever the signals, a successful tally leaves each count at its old
/// value plus the net number of handles the signals created.
pub proof fn lemma_tally_tracks_net<A: Asset>(
    counts: Map<u32, u32>,
    pending: Seq<u32>,
    signals: Seq<ReferenceCountSignal<A>>,
    key: u32,
)
    requires
        tally(counts, pending, signals) is Some,
        counts.contains_key(key),
    ensures
        tally(counts, pending, signals)->0.counts[key] == counts[key] + net_change(signals, key),
    decreases signals.len(),
{
    if signals.len() > 0 {
        lemma_tally_tracks_net(counts, pending, signals.drop_last(), key);
        lemma_tally_keeps_keys(counts, pending, signals.drop_last());
    }
}

/// The signals of well-behaved handles: once the count of `key` falls to
/// zero, no further signal names it, since no handle for it is left.
pub open spec fn released_for_good<A: Asset>(
    counts: Map<u32, u32>,
    signals: Seq<ReferenceCountSignal<A>>,
    key: u32,
) -> bool {
    forall|j: int, m: int|
        0 < j <= m < signals.len() && counts[key] + #[trigger] net_change(signals.take(j), key) == 0
            ==> #[trigger] signal_key(signals[m]) != key
}

/// Liveness, exactly: for signals of well-behaved handles, a pass evicts an
/// id precisely when some signal named it and its count ended at zero, that
/// is, when its last handle is gone.
pub proof fn lemma_pass_evicts_exactly_released<A: Asset>(
    counts: Map<u32, u32>,
    signals: Seq<ReferenceCountSignal<A>>,
    key: u32,
)
    requires
        tally(counts, Seq::empty(), signals) is Some,
        counts.contains_key(key),
        released_for_good(counts, signals, key),
    ensures
        tally(counts, Seq::empty(), signals)->0.pending.contains(key) <==> (counts[key]
            + net_change(signals, key) == 0 && mentions(signals, key)),
    decreases signals.len(),
{
    if signals.len() > 0 {
        let prefix = signals.drop_last();
        assert forall|j: int, m: int|
            0 < j <= m < prefix.len() && counts[key] + #[trigger] net_change(prefix.take(j), key)
                == 0 implies #[trigger] signal_key(prefix[m]) != key by {
            assert(prefix.take(j) =~= signals.take(j));
            assert(prefix[m] == signals[m]);
            assert(signal_key(signals[m]) != key);
        }
        lemma_pass_evicts_exactly_released(counts, prefix, key);
        lemma_tally_tracks_net(counts, Seq::empty(), prefix, key);
        lemma_tally_keeps_keys(counts, Seq::empty(), prefix);
        let t = tally(counts, Seq::empty(), prefix)->0;
        let s = signals.last();
        let n = tally_step(t.counts, t.pending, s)->0;
        let last = signals.len() - 1;
        assert(signals[last] == s);
        if signal_key(s) == key {
            assert(mentions(signals, key));
            if t.pending.contains(key) {
                let i = choose|i: int| 0 <= i < prefix.len() && #[trigger] signal_key(prefix[i]) == key;
                assert(prefix.len() > 0);
                assert(prefix.take(prefix.len() as int) =~= prefix);
                assert(counts[key] + net_change(signals.take(last), key) == 0);
                assert(signal_key(signals[last]) != key);
            }
            match s {
                ReferenceCountSignal::Decrease(_) => {
                    if n.counts[key] == 0 {
                        assert(n.pending[n.pending.len() - 1] == key);
                    }
                },
                ReferenceCountSignal::Increase(_) => {},
            }
        } else {
            assert(n.pending.contains(key) <==> t.pending.contains(key)) by {
                if n.pending.contains(key) {
                    let i = choose|i: int| 0 <= i < n.pending.len() && n.pending[i] == key;
                    assert(i < t.pending.len());
                    assert(t.pending[i] == key);
                }
                if t.pending.contains(key) {
                    let i = choose|i: int| 0 <= i < t.pending.len() && t.pending[i] == key;
                    assert(n.pending[i] == key);
                }
            }
            assert(mentions(signals, key) <==> mentions(prefix, key)) by {
                if mentions(signals, key) {
                    let i = choose|i: int| 0 <= i < signals.len() && #[trigger] signal_key(signals[i]) == key;
                    assert(i < prefix.len());
                    assert(prefix[i] == signals[i]);
                }
                if mentions(prefix, key) {
                    let i = choose|i: int| 0 <= i < prefix.len() && #[trigger] signal_key(prefix[i]) == key;
                    assert(signals[i] == prefix[i]);
                }
            }
        }
    }
}

/// A pass over an empty queue evicts nothing and leaves the counts as they
/// were, so a second pass right after a first one changes nothing.
pub proof fn lemma_quiet_pass_is_noop<A: Asset, V>(assets: Map<u32, V>, counts: Map<u32, u32>)
    ensures
        maintained(assets, counts, Seq::<ReferenceCountSignal<A>>::empty()) == Some(
            PassOutcome { assets, counts, removed: Seq::<u32>::empty() },
        ),
{
    assert(Seq::<u32>::empty().to_set() =~= Set::empty());
    assert(assets.remove_keys(Set::empty()) =~= assets);
    assert(counts.remove_keys(Set::empty()) =~= counts);
}

/// No use after eviction: an id that was issued and is no longer present
/// stays absent through later inserts, which use fresh ids, and through
/// later passes, which only ever remove entries.
pub proof fn lemma_evicted_id_stays_absent<A: Asset, V>(
    assets: Map<u32, V>,
    counts: Map<u32, u32>,
    next_id: u32,
    key: u32,
    asset: V,
    signals: Seq<ReferenceCountSignal<A>>,
)
    requires
        key < next_id,
        !assets.contains_key(key),
    ensures
        !assets.insert(next_id, asset).contains_key(key),
        maintained(assets, counts, signals) is Some ==> !maintained(
            assets,
            counts,
            signals,
        )->0.assets.contains_key(key),
{
}

} // verus!
